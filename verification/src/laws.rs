//! The library's laws: properties that relate several operations, stated over
//! the spec functions the operations' own contracts use, and proved once and
//! for all. Each proof function's doc comment states the law in words.

use vstd::prelude::*;

use crate::board::is_assembled_panel;
use crate::codec::cols_parsed;
use crate::codec::decoded_cols;
use crate::codec::json_wf;
use crate::crypto::bcrypt_matches;
use crate::models::BoardDb;
use crate::models::DatasetData;
use crate::models::GlobalDatasetDb;
use crate::models::Panel;
use crate::models::PanelDb;
use crate::models::User;
use crate::store::datasets_without;
use crate::store::datos_of;
use crate::store::find_board;
use crate::store::find_board_owned;
use crate::store::find_dataset;
use crate::store::find_user_by_username;
use crate::store::lemma_datasets_without_excludes;
use crate::store::lemma_find_board_owned_push;
use crate::store::lemma_find_dataset_covers;
use crate::store::lemma_find_dataset_push;
use crate::store::lemma_find_user_by_username_push;
use crate::store::lemma_rows_without_excludes;
use crate::store::panels_of;
use crate::store::rows_without;

verus! {

/// Law: registering and then logging in with the same credentials succeeds.
/// `register_user` only succeeds under a username nobody holds, appends a
/// user carrying that username, the given email, and a credential hash that
/// verifies against the given password. This lemma shows the lookup that
/// `login_user` is specified over then finds exactly that user; since the
/// hash verifies, `login_user`'s contract forces `Ok` with the same username
/// and email (the tokens are freshly drawn opaque identifiers both times).
pub proof fn lemma_register_then_login(users: Seq<User>, u: User, password: Seq<char>)
    requires
        find_user_by_username(users, u.username@) is None,
        bcrypt_matches(password, u.password@),
    ensures
        find_user_by_username(users.push(u), u.username@) == Some(u),
{
    lemma_find_user_by_username_push(users, u);
}

/// Law: a board reachable by its owner is unreachable, indistinguishably from
/// absence, under any other caller. After a board is created under a fresh
/// identifier, the ownership-scoped lookup that `get_board_by_id` is
/// specified over finds it for the owner and finds nothing for anyone else.
pub proof fn lemma_board_owner_scoping(boards: Seq<BoardDb>, rec: BoardDb, other: Seq<char>)
    requires
        find_board(boards, rec.id@) is None,
        other != rec.user_id@,
    ensures
        find_board_owned(boards.push(rec), rec.id@, rec.user_id@) == Some(rec),
        find_board_owned(boards.push(rec), rec.id@, other) is None,
{
    lemma_find_board_owned_push(boards, rec, rec.user_id@);
    lemma_find_board_owned_push(boards, rec, other);
}

/// Law: a board that exists only under other owners is invisible to the
/// ownership-scoped lookup, so `create_panel`'s contract forces
/// `Unauthorized` for a caller who does not own the target board — even
/// though the board exists.
pub proof fn lemma_foreign_board_is_unauthorized(
    boards: Seq<BoardDb>,
    board_id: Seq<char>,
    caller: Seq<char>,
)
    requires
        forall|k: int|
            0 <= k < boards.len() && (#[trigger] boards[k]).id@ == board_id ==> boards[k].user_id@
                != caller,
    ensures
        find_board_owned(boards, board_id, caller) is None,
    decreases boards.len(),
{
    if boards.len() == 0 {
    } else {
        assert forall|k: int|
            0 <= k < boards.drop_first().len() && (#[trigger] boards.drop_first()[k]).id@
                == board_id implies boards.drop_first()[k].user_id@ != caller by {
            assert(boards.drop_first()[k] == boards[k + 1]);
        }
        lemma_foreign_board_is_unauthorized(boards.drop_first(), board_id, caller);
    }
}

/// Law, first half of the dataset round trip: a dataset created under a fresh
/// identifier is found by the lookup that `get_dataset_by_id` is specified
/// over, and the column text it stores decodes back to exactly the column
/// list that was handed in, in the same order.
pub proof fn lemma_dataset_columns_round_trip(
    datasets: Seq<GlobalDatasetDb>,
    rec: GlobalDatasetDb,
    cols: Seq<Seq<char>>,
)
    requires
        find_dataset(datasets, rec.id@) is None,
        cols_parsed(rec.columnas@) == Some(cols),
    ensures
        find_dataset(datasets.push(rec), rec.id@) == Some(rec),
        decoded_cols(rec.columnas@) == cols,
{
    lemma_find_dataset_push(datasets, rec);
}

/// A table that holds no row of a dataset materializes that dataset's rows to
/// the empty sequence: a fresh dataset starts with an empty row set.
pub proof fn lemma_no_rows_no_datos(rows: Seq<DatasetData>, dataset_id: Seq<char>)
    requires
        forall|k: int| 0 <= k < rows.len() ==> (#[trigger] rows[k]).dataset_id@ != dataset_id,
    ensures
        datos_of(rows, dataset_id) == Seq::<Seq<char>>::empty(),
    decreases rows.len(),
{
    if rows.len() == 0 {
    } else {
        assert forall|k: int|
            0 <= k < rows.drop_first().len() implies (#[trigger] rows.drop_first()[k]).dataset_id@
            != dataset_id by {
            assert(rows.drop_first()[k] == rows[k + 1]);
        }
        lemma_no_rows_no_datos(rows.drop_first(), dataset_id);
    }
}

/// A board no panel record points at assembles to an empty panel list: a
/// freshly created board comes back with no panels.
pub proof fn lemma_no_panels_of_fresh_board(panels: Seq<PanelDb>, board_id: Seq<char>)
    requires
        forall|k: int| 0 <= k < panels.len() ==> (#[trigger] panels[k]).board_id@ != board_id,
    ensures
        panels_of(panels, board_id) == Seq::<PanelDb>::empty(),
    decreases panels.len(),
{
    if panels.len() == 0 {
    } else {
        assert(panels.drop_last().len() == panels.len() - 1);
        lemma_no_panels_of_fresh_board(panels.drop_last(), board_id);
    }
}

/// Appending a row prepends its payload to the newest-first materialization —
/// when the row belongs to the dataset and its payload is well-formed JSON —
/// and leaves the materialization alone otherwise.
pub proof fn lemma_datos_of_push(rows: Seq<DatasetData>, x: DatasetData, dataset_id: Seq<char>)
    ensures
        datos_of(rows.push(x), dataset_id) == if x.dataset_id@ == dataset_id && json_wf(x.data@) {
            seq![x.data@] + datos_of(rows, dataset_id)
        } else {
            datos_of(rows, dataset_id)
        },
    decreases rows.len(),
{
    if rows.len() == 0 {
        assert(rows.push(x)[0] == x);
        assert(rows.push(x).drop_first() =~= Seq::<DatasetData>::empty());
        if x.dataset_id@ == dataset_id && json_wf(x.data@) {
            assert(Seq::<Seq<char>>::empty().push(x.data@) =~= seq![x.data@] + datos_of(
                rows,
                dataset_id,
            ));
        } else {
            assert(rows =~= Seq::<DatasetData>::empty());
        }
    } else {
        assert(rows.push(x)[0] == rows[0]);
        assert(rows.push(x).drop_first() =~= rows.drop_first().push(x));
        lemma_datos_of_push(rows.drop_first(), x, dataset_id);
        if x.dataset_id@ == dataset_id && json_wf(x.data@) {
            if rows[0].dataset_id@ == dataset_id && json_wf(rows[0].data@) {
                assert((seq![x.data@] + datos_of(rows.drop_first(), dataset_id)).push(
                    rows[0].data@,
                ) =~= seq![x.data@] + datos_of(rows, dataset_id));
            }
        }
    }
}

/// Law, second half of the dataset round trip: appending two well-formed rows
/// to a dataset whose materialization was empty yields exactly those two
/// payloads, newest first.
pub proof fn lemma_two_rows_newest_first(
    rows: Seq<DatasetData>,
    first: DatasetData,
    second: DatasetData,
    dataset_id: Seq<char>,
)
    requires
        datos_of(rows, dataset_id) == Seq::<Seq<char>>::empty(),
        first.dataset_id@ == dataset_id,
        second.dataset_id@ == dataset_id,
        json_wf(first.data@),
        json_wf(second.data@),
    ensures
        datos_of(rows.push(first).push(second), dataset_id) == seq![second.data@, first.data@],
{
    lemma_datos_of_push(rows, first, dataset_id);
    lemma_datos_of_push(rows.push(first), second, dataset_id);
    assert(seq![first.data@] + datos_of(rows, dataset_id) =~= seq![first.data@]);
    assert(seq![second.data@] + seq![first.data@] =~= seq![second.data@, first.data@]);
}

/// Law: after a dataset is deleted, looking it up finds nothing, so
/// `get_dataset_by_id`'s contract forces `NotFound`.
pub proof fn lemma_deleted_dataset_gone(datasets: Seq<GlobalDatasetDb>, id: Seq<char>)
    ensures
        find_dataset(datasets_without(datasets, id), id) is None,
{
    lemma_datasets_without_excludes(datasets, id);
    lemma_find_dataset_covers(datasets_without(datasets, id), id);
}

/// Law: the cascading deletion is complete — no surviving row belongs to the
/// deleted dataset.
pub proof fn lemma_deleted_dataset_rows_gone(rows: Seq<DatasetData>, dataset_id: Seq<char>)
    ensures
        forall|k: int|
            0 <= k < rows_without(rows, dataset_id).len() ==> (#[trigger] rows_without(
                rows,
                dataset_id,
            )[k]).dataset_id@ != dataset_id,
{
    lemma_rows_without_excludes(rows, dataset_id);
}

/// Law: a panel bound to a dataset that was later deleted still appears when
/// its board is assembled — deletion leaves the panel table untouched, so the
/// ordered selection is unchanged — but it comes back with `data` absent
/// rather than failing the whole listing.
pub proof fn lemma_bound_panel_survives_dataset_delete(
    datasets: Seq<GlobalDatasetDb>,
    rows: Seq<DatasetData>,
    deleted: Seq<char>,
    p: Panel,
    rec: PanelDb,
)
    requires
        rec.dataset_id matches Some(s) && s@ == deleted,
        is_assembled_panel(p, rec, datasets_without(datasets, deleted), rows_without(rows, deleted)),
    ensures
        p.data is None,
{
    lemma_deleted_dataset_gone(datasets, deleted);
}

} // verus!
