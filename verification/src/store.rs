//! The record store: an in-memory table set holding users, boards, panels,
//! datasets and dataset rows in insertion (creation) order, together with the
//! lookup, selection and ordering operations the services are built on.
//!
//! Creation order is authoritative: "newest first" selections are the reverse
//! of insertion order, and the stable ordering of panels by stacking index
//! falls back to insertion order for equal indices.

use vstd::prelude::*;

use crate::codec::json_wf;
use crate::models::BoardDb;
use crate::models::DatasetData;
use crate::models::GlobalDatasetDb;
use crate::models::PanelDb;
use crate::models::User;

verus! {

/// The shared state handed to every command: the sole owner of persisted
/// records. Tables grow at the end, so a record's index is its creation rank.
pub struct AppState {
    pub users: Vec<User>,
    pub boards: Vec<BoardDb>,
    pub panels: Vec<PanelDb>,
    pub datasets: Vec<GlobalDatasetDb>,
    pub dataset_rows: Vec<DatasetData>,
}

impl AppState {
    /// A fresh store with every table empty; integrity holds from the start.
    pub fn new() -> (r: AppState)
        ensures
            r.wf(),
            r.users@ == Seq::<User>::empty(),
            r.boards@ == Seq::<BoardDb>::empty(),
            r.panels@ == Seq::<PanelDb>::empty(),
            r.datasets@ == Seq::<GlobalDatasetDb>::empty(),
            r.dataset_rows@ == Seq::<DatasetData>::empty(),
    {
        AppState {
            users: Vec::new(),
            boards: Vec::new(),
            panels: Vec::new(),
            datasets: Vec::new(),
            dataset_rows: Vec::new(),
        }
    }
}

// ---------------------------------------------------------------------------
// Small sequence facts shared by the scanning loops below.
// ---------------------------------------------------------------------------

/// Stepping a suffix scan: the suffix starting at `i` is its first element
/// followed by the suffix starting at `i + 1`.
pub proof fn lemma_skip_step<T>(s: Seq<T>, i: int)
    requires
        0 <= i < s.len(),
    ensures
        s.skip(i).drop_first() == s.skip(i + 1),
        s.skip(i)[0] == s[i],
        s.skip(i).len() == s.len() - i,
{
    assert(s.skip(i).drop_first() =~= s.skip(i + 1));
}

/// Stepping a prefix scan: the prefix of length `i + 1` is the prefix of
/// length `i` with element `i` appended.
pub proof fn lemma_take_step<T>(s: Seq<T>, i: int)
    requires
        0 <= i < s.len(),
    ensures
        s.take(i + 1).drop_last() == s.take(i),
        s.take(i + 1).last() == s[i],
        s.take(i + 1).len() == i + 1,
{
    assert(s.take(i + 1).drop_last() =~= s.take(i));
}

// ---------------------------------------------------------------------------
// First-match lookups, one per key the services filter by.
// ---------------------------------------------------------------------------

/// The first user whose username equals `username`, if any.
pub open spec fn find_user_by_username(users: Seq<User>, username: Seq<char>) -> Option<User>
    decreases users.len(),
{
    if users.len() == 0 {
        None
    } else if users[0].username@ == username {
        Some(users[0])
    } else {
        find_user_by_username(users.drop_first(), username)
    }
}

/// The first user whose email equals `email`, if any.
pub open spec fn find_user_by_email(users: Seq<User>, email: Seq<char>) -> Option<User>
    decreases users.len(),
{
    if users.len() == 0 {
        None
    } else if users[0].email@ == email {
        Some(users[0])
    } else {
        find_user_by_email(users.drop_first(), email)
    }
}

/// The first user with identifier `id`, if any.
pub open spec fn find_user_by_id(users: Seq<User>, id: Seq<char>) -> Option<User>
    decreases users.len(),
{
    if users.len() == 0 {
        None
    } else if users[0].id@ == id {
        Some(users[0])
    } else {
        find_user_by_id(users.drop_first(), id)
    }
}

/// The first board with identifier `id`, whoever owns it, if any.
pub open spec fn find_board(boards: Seq<BoardDb>, id: Seq<char>) -> Option<BoardDb>
    decreases boards.len(),
{
    if boards.len() == 0 {
        None
    } else if boards[0].id@ == id {
        Some(boards[0])
    } else {
        find_board(boards.drop_first(), id)
    }
}

/// The first board with identifier `id` owned by `user_id`, if any: the
/// ownership-scoped read every board access goes through.
pub open spec fn find_board_owned(boards: Seq<BoardDb>, id: Seq<char>, user_id: Seq<char>) -> Option<
    BoardDb,
>
    decreases boards.len(),
{
    if boards.len() == 0 {
        None
    } else if boards[0].id@ == id && boards[0].user_id@ == user_id {
        Some(boards[0])
    } else {
        find_board_owned(boards.drop_first(), id, user_id)
    }
}

/// The first panel with identifier `id`, if any.
pub open spec fn find_panel(panels: Seq<PanelDb>, id: Seq<char>) -> Option<PanelDb>
    decreases panels.len(),
{
    if panels.len() == 0 {
        None
    } else if panels[0].id@ == id {
        Some(panels[0])
    } else {
        find_panel(panels.drop_first(), id)
    }
}

/// The first dataset with identifier `id`, if any.
pub open spec fn find_dataset(datasets: Seq<GlobalDatasetDb>, id: Seq<char>) -> Option<
    GlobalDatasetDb,
>
    decreases datasets.len(),
{
    if datasets.len() == 0 {
        None
    } else if datasets[0].id@ == id {
        Some(datasets[0])
    } else {
        find_dataset(datasets.drop_first(), id)
    }
}

/// The first dataset row with identifier `id`, if any.
pub open spec fn find_row(rows: Seq<DatasetData>, id: Seq<char>) -> Option<DatasetData>
    decreases rows.len(),
{
    if rows.len() == 0 {
        None
    } else if rows[0].id@ == id {
        Some(rows[0])
    } else {
        find_row(rows.drop_first(), id)
    }
}

/// Index of the first user whose username matches, tied to the lookup above.
pub fn lookup_user_by_username(users: &Vec<User>, username: &String) -> (r: Option<usize>)
    ensures
        match r {
            Some(i) => i < users@.len() && find_user_by_username(users@, username@) == Some(
                users@[i as int],
            ),
            None => find_user_by_username(users@, username@) is None,
        },
{
    let n = users.len();
    let mut i: usize = 0;
    proof {
        assert(users@.skip(0) =~= users@);
    }
    while i < n
        invariant
            n == users@.len(),
            i <= n,
            find_user_by_username(users@, username@) == find_user_by_username(
                users@.skip(i as int),
                username@,
            ),
        decreases n - i,
    {
        proof {
            lemma_skip_step(users@, i as int);
        }
        if users[i].username == *username {
            return Some(i);
        }
        i += 1;
    }
    proof {
        assert(users@.skip(n as int) =~= Seq::<User>::empty());
    }
    None
}

/// Index of the first user whose email matches, tied to the lookup above.
pub fn lookup_user_by_email(users: &Vec<User>, email: &String) -> (r: Option<usize>)
    ensures
        match r {
            Some(i) => i < users@.len() && find_user_by_email(users@, email@) == Some(
                users@[i as int],
            ),
            None => find_user_by_email(users@, email@) is None,
        },
{
    let n = users.len();
    let mut i: usize = 0;
    proof {
        assert(users@.skip(0) =~= users@);
    }
    while i < n
        invariant
            n == users@.len(),
            i <= n,
            find_user_by_email(users@, email@) == find_user_by_email(
                users@.skip(i as int),
                email@,
            ),
        decreases n - i,
    {
        proof {
            lemma_skip_step(users@, i as int);
        }
        if users[i].email == *email {
            return Some(i);
        }
        i += 1;
    }
    proof {
        assert(users@.skip(n as int) =~= Seq::<User>::empty());
    }
    None
}

/// Index of the first user with the given identifier, tied to the lookup above.
pub fn lookup_user_by_id(users: &Vec<User>, id: &String) -> (r: Option<usize>)
    ensures
        match r {
            Some(i) => i < users@.len() && find_user_by_id(users@, id@) == Some(users@[i as int]),
            None => find_user_by_id(users@, id@) is None,
        },
{
    let n = users.len();
    let mut i: usize = 0;
    proof {
        assert(users@.skip(0) =~= users@);
    }
    while i < n
        invariant
            n == users@.len(),
            i <= n,
            find_user_by_id(users@, id@) == find_user_by_id(users@.skip(i as int), id@),
        decreases n - i,
    {
        proof {
            lemma_skip_step(users@, i as int);
        }
        if users[i].id == *id {
            return Some(i);
        }
        i += 1;
    }
    proof {
        assert(users@.skip(n as int) =~= Seq::<User>::empty());
    }
    None
}

/// Index of the first board with the given identifier, tied to the lookup above.
pub fn lookup_board(boards: &Vec<BoardDb>, id: &String) -> (r: Option<usize>)
    ensures
        match r {
            Some(i) => i < boards@.len() && find_board(boards@, id@) == Some(boards@[i as int]),
            None => find_board(boards@, id@) is None,
        },
{
    let n = boards.len();
    let mut i: usize = 0;
    proof {
        assert(boards@.skip(0) =~= boards@);
    }
    while i < n
        invariant
            n == boards@.len(),
            i <= n,
            find_board(boards@, id@) == find_board(boards@.skip(i as int), id@),
        decreases n - i,
    {
        proof {
            lemma_skip_step(boards@, i as int);
        }
        if boards[i].id == *id {
            return Some(i);
        }
        i += 1;
    }
    proof {
        assert(boards@.skip(n as int) =~= Seq::<BoardDb>::empty());
    }
    None
}

/// Index of the first board with the given identifier and owner, tied to the
/// ownership-scoped lookup above.
pub fn lookup_board_owned(boards: &Vec<BoardDb>, id: &String, user_id: &String) -> (r: Option<
    usize,
>)
    ensures
        match r {
            Some(i) => i < boards@.len() && find_board_owned(boards@, id@, user_id@) == Some(
                boards@[i as int],
            ),
            None => find_board_owned(boards@, id@, user_id@) is None,
        },
{
    let n = boards.len();
    let mut i: usize = 0;
    proof {
        assert(boards@.skip(0) =~= boards@);
    }
    while i < n
        invariant
            n == boards@.len(),
            i <= n,
            find_board_owned(boards@, id@, user_id@) == find_board_owned(
                boards@.skip(i as int),
                id@,
                user_id@,
            ),
        decreases n - i,
    {
        proof {
            lemma_skip_step(boards@, i as int);
        }
        if boards[i].id == *id && boards[i].user_id == *user_id {
            return Some(i);
        }
        i += 1;
    }
    proof {
        assert(boards@.skip(n as int) =~= Seq::<BoardDb>::empty());
    }
    None
}

/// Index of the first panel with the given identifier, tied to the lookup above.
pub fn lookup_panel(panels: &Vec<PanelDb>, id: &String) -> (r: Option<usize>)
    ensures
        match r {
            Some(i) => i < panels@.len() && find_panel(panels@, id@) == Some(panels@[i as int]),
            None => find_panel(panels@, id@) is None,
        },
{
    let n = panels.len();
    let mut i: usize = 0;
    proof {
        assert(panels@.skip(0) =~= panels@);
    }
    while i < n
        invariant
            n == panels@.len(),
            i <= n,
            find_panel(panels@, id@) == find_panel(panels@.skip(i as int), id@),
        decreases n - i,
    {
        proof {
            lemma_skip_step(panels@, i as int);
        }
        if panels[i].id == *id {
            return Some(i);
        }
        i += 1;
    }
    proof {
        assert(panels@.skip(n as int) =~= Seq::<PanelDb>::empty());
    }
    None
}

/// Index of the first dataset with the given identifier, tied to the lookup above.
pub fn lookup_dataset(datasets: &Vec<GlobalDatasetDb>, id: &String) -> (r: Option<usize>)
    ensures
        match r {
            Some(i) => i < datasets@.len() && find_dataset(datasets@, id@) == Some(
                datasets@[i as int],
            ),
            None => find_dataset(datasets@, id@) is None,
        },
{
    let n = datasets.len();
    let mut i: usize = 0;
    proof {
        assert(datasets@.skip(0) =~= datasets@);
    }
    while i < n
        invariant
            n == datasets@.len(),
            i <= n,
            find_dataset(datasets@, id@) == find_dataset(datasets@.skip(i as int), id@),
        decreases n - i,
    {
        proof {
            lemma_skip_step(datasets@, i as int);
        }
        if datasets[i].id == *id {
            return Some(i);
        }
        i += 1;
    }
    proof {
        assert(datasets@.skip(n as int) =~= Seq::<GlobalDatasetDb>::empty());
    }
    None
}

/// Index of the first dataset row with the given identifier, tied to the
/// lookup above.
pub fn lookup_row(rows: &Vec<DatasetData>, id: &String) -> (r: Option<usize>)
    ensures
        match r {
            Some(i) => i < rows@.len() && find_row(rows@, id@) == Some(rows@[i as int]),
            None => find_row(rows@, id@) is None,
        },
{
    let n = rows.len();
    let mut i: usize = 0;
    proof {
        assert(rows@.skip(0) =~= rows@);
    }
    while i < n
        invariant
            n == rows@.len(),
            i <= n,
            find_row(rows@, id@) == find_row(rows@.skip(i as int), id@),
        decreases n - i,
    {
        proof {
            lemma_skip_step(rows@, i as int);
        }
        if rows[i].id == *id {
            return Some(i);
        }
        i += 1;
    }
    proof {
        assert(rows@.skip(n as int) =~= Seq::<DatasetData>::empty());
    }
    None
}

// ---------------------------------------------------------------------------
// Selections: ownership filters, newest-first orderings, deletions.
// ---------------------------------------------------------------------------

/// The boards owned by `user_id`, newest first (reverse of creation order):
/// element 0 of the table lands at the end of the selection.
pub open spec fn boards_newest_first(boards: Seq<BoardDb>, user_id: Seq<char>) -> Seq<BoardDb>
    decreases boards.len(),
{
    if boards.len() == 0 {
        Seq::empty()
    } else {
        let rest = boards_newest_first(boards.drop_first(), user_id);
        if boards[0].user_id@ == user_id {
            rest.push(boards[0])
        } else {
            rest
        }
    }
}

/// All datasets, newest first (reverse of creation order).
pub open spec fn datasets_newest_first(datasets: Seq<GlobalDatasetDb>) -> Seq<GlobalDatasetDb>
    decreases datasets.len(),
{
    if datasets.len() == 0 {
        Seq::empty()
    } else {
        datasets_newest_first(datasets.drop_first()).push(datasets[0])
    }
}

/// The raw panel records of one board, in creation order.
pub open spec fn panels_of(panels: Seq<PanelDb>, board_id: Seq<char>) -> Seq<PanelDb>
    decreases panels.len(),
{
    if panels.len() == 0 {
        Seq::empty()
    } else {
        let init = panels_of(panels.drop_last(), board_id);
        if panels.last().board_id@ == board_id {
            init.push(panels.last())
        } else {
            init
        }
    }
}

/// The materialized row payloads of one dataset: newest first, with any
/// payload that is not well-formed JSON silently dropped (best-effort
/// degradation for corrupted data, never an error).
pub open spec fn datos_of(rows: Seq<DatasetData>, dataset_id: Seq<char>) -> Seq<Seq<char>>
    decreases rows.len(),
{
    if rows.len() == 0 {
        Seq::empty()
    } else {
        let rest = datos_of(rows.drop_first(), dataset_id);
        if rows[0].dataset_id@ == dataset_id && json_wf(rows[0].data@) {
            rest.push(rows[0].data@)
        } else {
            rest
        }
    }
}

/// The dataset table after deleting `id`, in unchanged order.
pub open spec fn datasets_without(datasets: Seq<GlobalDatasetDb>, id: Seq<char>) -> Seq<
    GlobalDatasetDb,
>
    decreases datasets.len(),
{
    if datasets.len() == 0 {
        Seq::empty()
    } else {
        let init = datasets_without(datasets.drop_last(), id);
        if datasets.last().id@ == id {
            init
        } else {
            init.push(datasets.last())
        }
    }
}

/// The row table after the cascading deletion of dataset `id`, in unchanged
/// order.
pub open spec fn rows_without(rows: Seq<DatasetData>, dataset_id: Seq<char>) -> Seq<DatasetData>
    decreases rows.len(),
{
    if rows.len() == 0 {
        Seq::empty()
    } else {
        let init = rows_without(rows.drop_last(), dataset_id);
        if rows.last().dataset_id@ == dataset_id {
            init
        } else {
            init.push(rows.last())
        }
    }
}

/// Collect the boards of one user, newest first.
pub fn boards_for_user(boards: &Vec<BoardDb>, user_id: &String) -> (r: Vec<BoardDb>)
    ensures
        r@ == boards_newest_first(boards@, user_id@),
{
    let mut out: Vec<BoardDb> = Vec::new();
    let mut i: usize = boards.len();
    proof {
        assert(boards@.skip(i as int) =~= Seq::<BoardDb>::empty());
    }
    while i > 0
        invariant
            i <= boards@.len(),
            out@ == boards_newest_first(boards@.skip(i as int), user_id@),
        decreases i,
    {
        i = i - 1;
        proof {
            lemma_skip_step(boards@, i as int);
        }
        if boards[i].user_id == *user_id {
            out.push(boards[i].duplicate());
        }
    }
    proof {
        assert(boards@.skip(0) =~= boards@);
    }
    out
}

/// Collect every dataset record, newest first.
pub fn datasets_all_newest_first(datasets: &Vec<GlobalDatasetDb>) -> (r: Vec<GlobalDatasetDb>)
    ensures
        r@ == datasets_newest_first(datasets@),
{
    let mut out: Vec<GlobalDatasetDb> = Vec::new();
    let mut i: usize = datasets.len();
    proof {
        assert(datasets@.skip(i as int) =~= Seq::<GlobalDatasetDb>::empty());
    }
    while i > 0
        invariant
            i <= datasets@.len(),
            out@ == datasets_newest_first(datasets@.skip(i as int)),
        decreases i,
    {
        i = i - 1;
        proof {
            lemma_skip_step(datasets@, i as int);
        }
        out.push(datasets[i].duplicate());
    }
    proof {
        assert(datasets@.skip(0) =~= datasets@);
    }
    out
}

/// Collect the raw panel records of one board, in creation order.
pub fn panel_rows_for_board(panels: &Vec<PanelDb>, board_id: &String) -> (r: Vec<PanelDb>)
    ensures
        r@ == panels_of(panels@, board_id@),
{
    let mut out: Vec<PanelDb> = Vec::new();
    let n = panels.len();
    let mut i: usize = 0;
    proof {
        assert(panels@.skip(0) =~= panels@);
    }
    while i < n
        invariant
            n == panels@.len(),
            i <= n,
            out@ == panels_of(panels@.take(i as int), board_id@),
        decreases n - i,
    {
        proof {
            lemma_take_step(panels@, i as int);
        }
        if panels[i].board_id == *board_id {
            out.push(panels[i].duplicate());
        }
        i += 1;
    }
    proof {
        assert(panels@.take(n as int) =~= panels@);
    }
    out
}

// ---------------------------------------------------------------------------
// Integrity of the store.
// ---------------------------------------------------------------------------

impl AppState {
    /// Integrity of the table set, which every mutating command preserves:
    /// identifiers are unique within each table, usernames and emails are
    /// unique among users, every panel points at an existing board, and every
    /// row points at an existing dataset.
    pub open spec fn wf(&self) -> bool {
        &&& forall|i: int, j: int|
            #![trigger self.users@[i], self.users@[j]]
            0 <= i < j < self.users@.len() ==> self.users@[i].id@ != self.users@[j].id@
                && self.users@[i].username@ != self.users@[j].username@ && self.users@[i].email@
                != self.users@[j].email@
        &&& forall|i: int, j: int|
            #![trigger self.boards@[i], self.boards@[j]]
            0 <= i < j < self.boards@.len() ==> self.boards@[i].id@ != self.boards@[j].id@
        &&& forall|i: int, j: int|
            #![trigger self.panels@[i], self.panels@[j]]
            0 <= i < j < self.panels@.len() ==> self.panels@[i].id@ != self.panels@[j].id@
        &&& forall|i: int, j: int|
            #![trigger self.datasets@[i], self.datasets@[j]]
            0 <= i < j < self.datasets@.len() ==> self.datasets@[i].id@ != self.datasets@[j].id@
        &&& forall|i: int, j: int|
            #![trigger self.dataset_rows@[i], self.dataset_rows@[j]]
            0 <= i < j < self.dataset_rows@.len() ==> self.dataset_rows@[i].id@
                != self.dataset_rows@[j].id@
        &&& forall|k: int|
            0 <= k < self.panels@.len() ==> find_board(
                self.boards@,
                (#[trigger] self.panels@[k]).board_id@,
            ) is Some
        &&& forall|k: int|
            0 <= k < self.dataset_rows@.len() ==> find_dataset(
                self.datasets@,
                (#[trigger] self.dataset_rows@[k]).dataset_id@,
            ) is Some
    }
}

/// A username lookup misses exactly when no user carries the username.
pub proof fn lemma_find_user_by_username_covers(users: Seq<User>, username: Seq<char>)
    ensures
        find_user_by_username(users, username) is None <==> forall|k: int|
            0 <= k < users.len() ==> (#[trigger] users[k]).username@ != username,
    decreases users.len(),
{
    if users.len() == 0 {
    } else {
        lemma_find_user_by_username_covers(users.drop_first(), username);
        if find_user_by_username(users, username) is None {
            assert forall|k: int| 0 <= k < users.len() implies (#[trigger] users[k]).username@
                != username by {
                if k > 0 {
                    assert(users.drop_first()[k - 1] == users[k]);
                    assert(users.drop_first()[k - 1].username@ != username);
                }
            }
        } else if users[0].username@ != username {
            assert(find_user_by_username(users.drop_first(), username) is Some);
            assert(exists|k: int|
                0 <= k < users.drop_first().len() && (#[trigger] users.drop_first()[k]).username@
                    == username);
            let k = choose|k: int|
                0 <= k < users.drop_first().len() && (#[trigger] users.drop_first()[k]).username@
                    == username;
            assert(users[k + 1].username@ == username);
        }
    }
}

/// An email lookup misses exactly when no user carries the email.
pub proof fn lemma_find_user_by_email_covers(users: Seq<User>, email: Seq<char>)
    ensures
        find_user_by_email(users, email) is None <==> forall|k: int|
            0 <= k < users.len() ==> (#[trigger] users[k]).email@ != email,
    decreases users.len(),
{
    if users.len() == 0 {
    } else {
        lemma_find_user_by_email_covers(users.drop_first(), email);
        if find_user_by_email(users, email) is None {
            assert forall|k: int| 0 <= k < users.len() implies (#[trigger] users[k]).email@
                != email by {
                if k > 0 {
                    assert(users.drop_first()[k - 1] == users[k]);
                    assert(users.drop_first()[k - 1].email@ != email);
                }
            }
        } else if users[0].email@ != email {
            assert(find_user_by_email(users.drop_first(), email) is Some);
            assert(exists|k: int|
                0 <= k < users.drop_first().len() && (#[trigger] users.drop_first()[k]).email@
                    == email);
            let k = choose|k: int|
                0 <= k < users.drop_first().len() && (#[trigger] users.drop_first()[k]).email@
                    == email;
            assert(users[k + 1].email@ == email);
        }
    }
}

/// A user identifier lookup misses exactly when no user carries the
/// identifier.
pub proof fn lemma_find_user_by_id_covers(users: Seq<User>, id: Seq<char>)
    ensures
        find_user_by_id(users, id) is None <==> forall|k: int|
            0 <= k < users.len() ==> (#[trigger] users[k]).id@ != id,
    decreases users.len(),
{
    if users.len() == 0 {
    } else {
        lemma_find_user_by_id_covers(users.drop_first(), id);
        if find_user_by_id(users, id) is None {
            assert forall|k: int| 0 <= k < users.len() implies (#[trigger] users[k]).id@
                != id by {
                if k > 0 {
                    assert(users.drop_first()[k - 1] == users[k]);
                    assert(users.drop_first()[k - 1].id@ != id);
                }
            }
        } else if users[0].id@ != id {
            assert(find_user_by_id(users.drop_first(), id) is Some);
            assert(exists|k: int|
                0 <= k < users.drop_first().len() && (#[trigger] users.drop_first()[k]).id@
                    == id);
            let k = choose|k: int|
                0 <= k < users.drop_first().len() && (#[trigger] users.drop_first()[k]).id@
                    == id;
            assert(users[k + 1].id@ == id);
        }
    }
}

/// A board lookup misses exactly when no board carries the identifier.
pub proof fn lemma_find_board_covers(boards: Seq<BoardDb>, id: Seq<char>)
    ensures
        find_board(boards, id) is None <==> forall|k: int|
            0 <= k < boards.len() ==> (#[trigger] boards[k]).id@ != id,
    decreases boards.len(),
{
    if boards.len() == 0 {
    } else {
        lemma_find_board_covers(boards.drop_first(), id);
        if find_board(boards, id) is None {
            assert forall|k: int| 0 <= k < boards.len() implies (#[trigger] boards[k]).id@
                != id by {
                if k > 0 {
                    assert(boards.drop_first()[k - 1] == boards[k]);
                    assert(boards.drop_first()[k - 1].id@ != id);
                }
            }
        } else if boards[0].id@ != id {
            assert(find_board(boards.drop_first(), id) is Some);
            assert(exists|k: int|
                0 <= k < boards.drop_first().len() && (#[trigger] boards.drop_first()[k]).id@
                    == id);
            let k = choose|k: int|
                0 <= k < boards.drop_first().len() && (#[trigger] boards.drop_first()[k]).id@
                    == id;
            assert(boards[k + 1].id@ == id);
        }
    }
}

/// An ownership-scoped board hit names a board that a plain identifier lookup
/// also finds.
pub proof fn lemma_find_board_owned_implies_find_board(
    boards: Seq<BoardDb>,
    id: Seq<char>,
    user_id: Seq<char>,
)
    requires
        find_board_owned(boards, id, user_id) is Some,
    ensures
        find_board(boards, id) is Some,
    decreases boards.len(),
{
    if boards.len() == 0 {
    } else if boards[0].id@ == id {
    } else {
        lemma_find_board_owned_implies_find_board(boards.drop_first(), id, user_id);
    }
}

/// A panel lookup misses exactly when no panel carries the identifier.
pub proof fn lemma_find_panel_covers(panels: Seq<PanelDb>, id: Seq<char>)
    ensures
        find_panel(panels, id) is None <==> forall|k: int|
            0 <= k < panels.len() ==> (#[trigger] panels[k]).id@ != id,
    decreases panels.len(),
{
    if panels.len() == 0 {
    } else {
        lemma_find_panel_covers(panels.drop_first(), id);
        if find_panel(panels, id) is None {
            assert forall|k: int| 0 <= k < panels.len() implies (#[trigger] panels[k]).id@
                != id by {
                if k > 0 {
                    assert(panels.drop_first()[k - 1] == panels[k]);
                    assert(panels.drop_first()[k - 1].id@ != id);
                }
            }
        } else if panels[0].id@ != id {
            assert(find_panel(panels.drop_first(), id) is Some);
            assert(exists|k: int|
                0 <= k < panels.drop_first().len() && (#[trigger] panels.drop_first()[k]).id@
                    == id);
            let k = choose|k: int|
                0 <= k < panels.drop_first().len() && (#[trigger] panels.drop_first()[k]).id@
                    == id;
            assert(panels[k + 1].id@ == id);
        }
    }
}

/// A dataset lookup misses exactly when no dataset carries the identifier.
pub proof fn lemma_find_dataset_covers(datasets: Seq<GlobalDatasetDb>, id: Seq<char>)
    ensures
        find_dataset(datasets, id) is None <==> forall|k: int|
            0 <= k < datasets.len() ==> (#[trigger] datasets[k]).id@ != id,
    decreases datasets.len(),
{
    if datasets.len() == 0 {
    } else {
        lemma_find_dataset_covers(datasets.drop_first(), id);
        if find_dataset(datasets, id) is None {
            assert forall|k: int| 0 <= k < datasets.len() implies (#[trigger] datasets[k]).id@
                != id by {
                if k > 0 {
                    assert(datasets.drop_first()[k - 1] == datasets[k]);
                    assert(datasets.drop_first()[k - 1].id@ != id);
                }
            }
        } else if datasets[0].id@ != id {
            assert(find_dataset(datasets.drop_first(), id) is Some);
            assert(exists|k: int|
                0 <= k < datasets.drop_first().len() && (#[trigger] datasets.drop_first()[k]).id@
                    == id);
            let k = choose|k: int|
                0 <= k < datasets.drop_first().len() && (#[trigger] datasets.drop_first()[k]).id@
                    == id;
            assert(datasets[k + 1].id@ == id);
        }
    }
}

/// A row lookup misses exactly when no row carries the identifier.
pub proof fn lemma_find_row_covers(rows: Seq<DatasetData>, id: Seq<char>)
    ensures
        find_row(rows, id) is None <==> forall|k: int|
            0 <= k < rows.len() ==> (#[trigger] rows[k]).id@ != id,
    decreases rows.len(),
{
    if rows.len() == 0 {
    } else {
        lemma_find_row_covers(rows.drop_first(), id);
        if find_row(rows, id) is None {
            assert forall|k: int| 0 <= k < rows.len() implies (#[trigger] rows[k]).id@
                != id by {
                if k > 0 {
                    assert(rows.drop_first()[k - 1] == rows[k]);
                    assert(rows.drop_first()[k - 1].id@ != id);
                }
            }
        } else if rows[0].id@ != id {
            assert(find_row(rows.drop_first(), id) is Some);
            assert(exists|k: int|
                0 <= k < rows.drop_first().len() && (#[trigger] rows.drop_first()[k]).id@
                    == id);
            let k = choose|k: int|
                0 <= k < rows.drop_first().len() && (#[trigger] rows.drop_first()[k]).id@
                    == id;
            assert(rows[k + 1].id@ == id);
        }
    }
}

/// Every record the dataset deletion keeps already stood in the table.
pub proof fn lemma_datasets_without_members(datasets: Seq<GlobalDatasetDb>, id: Seq<char>)
    ensures
        forall|j: int|
            0 <= j < datasets_without(datasets, id).len() ==> exists|k: int|
                0 <= k < datasets.len() && #[trigger] datasets_without(datasets, id)[j]
                    == datasets[k],
    decreases datasets.len(),
{
    if datasets.len() == 0 {
    } else {
        lemma_datasets_without_members(datasets.drop_last(), id);
        let res = datasets_without(datasets, id);
        let init = datasets_without(datasets.drop_last(), id);
        assert forall|j: int| 0 <= j < res.len() implies exists|k: int|
            0 <= k < datasets.len() && #[trigger] res[j] == datasets[k] by {
            if datasets.last().id@ == id || j < init.len() {
                assert(res[j] == init[j]);
                let k = choose|k: int|
                    0 <= k < datasets.drop_last().len() && init[j] == datasets.drop_last()[k];
                assert(res[j] == datasets[k]);
            } else {
                assert(res[j] == datasets.last());
                assert(res[j] == datasets[datasets.len() - 1]);
            }
        }
    }
}

/// Every row the cascading deletion keeps already stood in the table.
pub proof fn lemma_rows_without_members(rows: Seq<DatasetData>, dataset_id: Seq<char>)
    ensures
        forall|j: int|
            0 <= j < rows_without(rows, dataset_id).len() ==> exists|k: int|
                0 <= k < rows.len() && #[trigger] rows_without(rows, dataset_id)[j] == rows[k],
    decreases rows.len(),
{
    if rows.len() == 0 {
    } else {
        lemma_rows_without_members(rows.drop_last(), dataset_id);
        let res = rows_without(rows, dataset_id);
        let init = rows_without(rows.drop_last(), dataset_id);
        assert forall|j: int| 0 <= j < res.len() implies exists|k: int|
            0 <= k < rows.len() && #[trigger] res[j] == rows[k] by {
            if rows.last().dataset_id@ == dataset_id || j < init.len() {
                assert(res[j] == init[j]);
                let k = choose|k: int|
                    0 <= k < rows.drop_last().len() && init[j] == rows.drop_last()[k];
                assert(res[j] == rows[k]);
            } else {
                assert(res[j] == rows.last());
                assert(res[j] == rows[rows.len() - 1]);
            }
        }
    }
}

/// Every record the dataset deletion keeps has another identifier.
pub proof fn lemma_datasets_without_excludes(datasets: Seq<GlobalDatasetDb>, id: Seq<char>)
    ensures
        forall|k: int|
            0 <= k < datasets_without(datasets, id).len() ==> (#[trigger] datasets_without(
                datasets,
                id,
            )[k]).id@ != id,
    decreases datasets.len(),
{
    if datasets.len() == 0 {
    } else {
        lemma_datasets_without_excludes(datasets.drop_last(), id);
        let res = datasets_without(datasets, id);
        let init = datasets_without(datasets.drop_last(), id);
        assert forall|k: int| 0 <= k < res.len() implies (#[trigger] res[k]).id@ != id by {
            if datasets.last().id@ != id {
                assert(res == init.push(datasets.last()));
                if k < init.len() {
                    assert(res[k] == init[k]);
                } else {
                    assert(res[k] == datasets.last());
                }
            }
        }
    }
}

/// Every row the cascading deletion keeps belongs to another dataset.
pub proof fn lemma_rows_without_excludes(rows: Seq<DatasetData>, dataset_id: Seq<char>)
    ensures
        forall|k: int|
            0 <= k < rows_without(rows, dataset_id).len() ==> (#[trigger] rows_without(
                rows,
                dataset_id,
            )[k]).dataset_id@ != dataset_id,
    decreases rows.len(),
{
    if rows.len() == 0 {
    } else {
        lemma_rows_without_excludes(rows.drop_last(), dataset_id);
        let res = rows_without(rows, dataset_id);
        let init = rows_without(rows.drop_last(), dataset_id);
        assert forall|k: int| 0 <= k < res.len() implies (#[trigger] res[k]).dataset_id@
            != dataset_id by {
            if rows.last().dataset_id@ != dataset_id {
                assert(res == init.push(rows.last()));
                if k < init.len() {
                    assert(res[k] == init[k]);
                } else {
                    assert(res[k] == rows.last());
                }
            }
        }
    }
}

/// Deletion keeps record identifiers distinct.
pub proof fn lemma_datasets_without_distinct(datasets: Seq<GlobalDatasetDb>, id: Seq<char>)
    requires
        forall|i: int, j: int|
            #![trigger datasets[i], datasets[j]]
            0 <= i < j < datasets.len() ==> datasets[i].id@ != datasets[j].id@,
    ensures
        forall|i: int, j: int|
            #![trigger datasets_without(datasets, id)[i], datasets_without(datasets, id)[j]]
            0 <= i < j < datasets_without(datasets, id).len() ==> datasets_without(
                datasets,
                id,
            )[i].id@ != datasets_without(datasets, id)[j].id@,
    decreases datasets.len(),
{
    if datasets.len() == 0 {
    } else {
        assert(forall|k: int|
            0 <= k < datasets.drop_last().len() ==> #[trigger] datasets.drop_last()[k]
                == datasets[k]);
        lemma_datasets_without_distinct(datasets.drop_last(), id);
        lemma_datasets_without_members(datasets.drop_last(), id);
        let res = datasets_without(datasets, id);
        let init = datasets_without(datasets.drop_last(), id);
        assert forall|i: int, j: int| 0 <= i < j < res.len() implies (#[trigger] res[i]).id@
            != (#[trigger] res[j]).id@ by {
            if datasets.last().id@ == id {
                assert(res[i] == init[i] && res[j] == init[j]);
            } else {
                assert(res == init.push(datasets.last()));
                if j < init.len() {
                    assert(res[i] == init[i] && res[j] == init[j]);
                } else {
                    assert(res[i] == init[i] && res[j] == datasets.last());
                    let k = choose|k: int|
                        0 <= k < datasets.drop_last().len() && init[i] == datasets.drop_last()[k];
                    assert(init[i] == datasets[k]);
                    assert(datasets[k].id@ != datasets[datasets.len() - 1].id@);
                }
            }
        }
    }
}

/// The cascading deletion keeps row identifiers distinct.
pub proof fn lemma_rows_without_distinct(rows: Seq<DatasetData>, dataset_id: Seq<char>)
    requires
        forall|i: int, j: int|
            #![trigger rows[i], rows[j]]
            0 <= i < j < rows.len() ==> rows[i].id@ != rows[j].id@,
    ensures
        forall|i: int, j: int|
            #![trigger rows_without(rows, dataset_id)[i], rows_without(rows, dataset_id)[j]]
            0 <= i < j < rows_without(rows, dataset_id).len() ==> rows_without(
                rows,
                dataset_id,
            )[i].id@ != rows_without(rows, dataset_id)[j].id@,
    decreases rows.len(),
{
    if rows.len() == 0 {
    } else {
        assert(forall|k: int|
            0 <= k < rows.drop_last().len() ==> #[trigger] rows.drop_last()[k] == rows[k]);
        lemma_rows_without_distinct(rows.drop_last(), dataset_id);
        lemma_rows_without_members(rows.drop_last(), dataset_id);
        let res = rows_without(rows, dataset_id);
        let init = rows_without(rows.drop_last(), dataset_id);
        assert forall|i: int, j: int| 0 <= i < j < res.len() implies (#[trigger] res[i]).id@
            != (#[trigger] res[j]).id@ by {
            if rows.last().dataset_id@ == dataset_id {
                assert(res[i] == init[i] && res[j] == init[j]);
            } else {
                assert(res == init.push(rows.last()));
                if j < init.len() {
                    assert(res[i] == init[i] && res[j] == init[j]);
                } else {
                    assert(res[i] == init[i] && res[j] == rows.last());
                    let k = choose|k: int|
                        0 <= k < rows.drop_last().len() && init[i] == rows.drop_last()[k];
                    assert(init[i] == rows[k]);
                    assert(rows[k].id@ != rows[rows.len() - 1].id@);
                }
            }
        }
    }
}

/// A dataset the deletion did not target is kept.
pub proof fn lemma_datasets_without_keeps(
    datasets: Seq<GlobalDatasetDb>,
    id: Seq<char>,
    x: GlobalDatasetDb,
)
    requires
        datasets.contains(x),
        x.id@ != id,
    ensures
        datasets_without(datasets, id).contains(x),
    decreases datasets.len(),
{
    let i = choose|i: int| 0 <= i < datasets.len() && datasets[i] == x;
    let res = datasets_without(datasets, id);
    let init = datasets_without(datasets.drop_last(), id);
    if i == datasets.len() - 1 {
        assert(datasets.last() == x);
        assert(res == init.push(x));
        assert(res[res.len() - 1] == x);
    } else {
        assert(datasets.drop_last()[i] == x);
        assert(datasets.drop_last().contains(x));
        lemma_datasets_without_keeps(datasets.drop_last(), id, x);
        let j = choose|j: int| 0 <= j < init.len() && init[j] == x;
        assert(res[j] == x);
    }
}

// ---------------------------------------------------------------------------
// What a lookup sees after a fresh record is appended.
// ---------------------------------------------------------------------------

/// A user appended under a username nobody holds is the one a username
/// lookup finds.
pub proof fn lemma_find_user_by_username_push(users: Seq<User>, u: User)
    requires
        find_user_by_username(users, u.username@) is None,
    ensures
        find_user_by_username(users.push(u), u.username@) == Some(u),
    decreases users.len(),
{
    if users.len() == 0 {
        assert(users.push(u)[0] == u);
    } else {
        assert(users.push(u)[0] == users[0]);
        assert(users.push(u).drop_first() =~= users.drop_first().push(u));
        lemma_find_user_by_username_push(users.drop_first(), u);
    }
}

/// A board appended under a fresh identifier is found by the
/// ownership-scoped lookup exactly for its own owner.
pub proof fn lemma_find_board_owned_push(boards: Seq<BoardDb>, rec: BoardDb, user_id: Seq<char>)
    requires
        find_board(boards, rec.id@) is None,
    ensures
        find_board_owned(boards.push(rec), rec.id@, user_id) == if rec.user_id@ == user_id {
            Some(rec)
        } else {
            None::<BoardDb>
        },
    decreases boards.len(),
{
    if boards.len() == 0 {
        assert(boards.push(rec)[0] == rec);
        if rec.user_id@ != user_id {
            assert(boards.push(rec).drop_first() =~= Seq::<BoardDb>::empty());
        }
    } else {
        assert(boards.push(rec)[0] == boards[0]);
        assert(boards.push(rec).drop_first() =~= boards.drop_first().push(rec));
        lemma_find_board_owned_push(boards.drop_first(), rec, user_id);
    }
}

/// A panel appended under a fresh identifier is what an identifier lookup
/// finds.
pub proof fn lemma_find_panel_push(panels: Seq<PanelDb>, rec: PanelDb)
    requires
        find_panel(panels, rec.id@) is None,
    ensures
        find_panel(panels.push(rec), rec.id@) == Some(rec),
    decreases panels.len(),
{
    if panels.len() == 0 {
        assert(panels.push(rec)[0] == rec);
    } else {
        assert(panels.push(rec)[0] == panels[0]);
        assert(panels.push(rec).drop_first() =~= panels.drop_first().push(rec));
        lemma_find_panel_push(panels.drop_first(), rec);
    }
}

/// A dataset appended under a fresh identifier is what an identifier lookup
/// finds.
pub proof fn lemma_find_dataset_push(datasets: Seq<GlobalDatasetDb>, rec: GlobalDatasetDb)
    requires
        find_dataset(datasets, rec.id@) is None,
    ensures
        find_dataset(datasets.push(rec), rec.id@) == Some(rec),
    decreases datasets.len(),
{
    if datasets.len() == 0 {
        assert(datasets.push(rec)[0] == rec);
    } else {
        assert(datasets.push(rec)[0] == datasets[0]);
        assert(datasets.push(rec).drop_first() =~= datasets.drop_first().push(rec));
        lemma_find_dataset_push(datasets.drop_first(), rec);
    }
}

// ---------------------------------------------------------------------------
// Stable ordering by stacking index.
// ---------------------------------------------------------------------------

/// Insert `x` after every element whose stacking index is less than or equal
/// to its own: a later record never overtakes an earlier equal one, which is
/// exactly the stable fallback to creation order.
pub open spec fn insert_z(x: PanelDb, s: Seq<PanelDb>) -> Seq<PanelDb>
    decreases s.len(),
{
    if s.len() == 0 {
        seq![x]
    } else if s.last().z_index <= x.z_index {
        s.push(x)
    } else {
        insert_z(x, s.drop_last()).push(s.last())
    }
}

/// Stable sort by stacking index: records are inserted in creation order, so
/// records with equal indices keep that order among themselves.
pub open spec fn sort_by_z(s: Seq<PanelDb>) -> Seq<PanelDb>
    decreases s.len(),
{
    if s.len() == 0 {
        Seq::empty()
    } else {
        insert_z(s.last(), sort_by_z(s.drop_last()))
    }
}

/// Non-decreasing stacking indices: the authoritative render and fetch order.
pub open spec fn z_sorted(s: Seq<PanelDb>) -> bool {
    forall|i: int, j: int| 0 <= i < j < s.len() ==> s[i].z_index <= s[j].z_index
}

/// Every stacking index of `insert_z(x, s)` is bounded by any bound on `s`
/// and on `x`.
proof fn lemma_insert_z_bound(x: PanelDb, s: Seq<PanelDb>, b: i32)
    requires
        x.z_index <= b,
        forall|k: int| 0 <= k < s.len() ==> s[k].z_index <= b,
    ensures
        forall|k: int| 0 <= k < insert_z(x, s).len() ==> insert_z(x, s)[k].z_index <= b,
    decreases s.len(),
{
    if s.len() == 0 {
    } else if s.last().z_index <= x.z_index {
    } else {
        lemma_insert_z_bound(x, s.drop_last(), b);
    }
}

/// Inserting into a sorted sequence keeps it sorted.
proof fn lemma_insert_z_sorted(x: PanelDb, s: Seq<PanelDb>)
    requires
        z_sorted(s),
    ensures
        z_sorted(insert_z(x, s)),
    decreases s.len(),
{
    if s.len() == 0 {
    } else if s.last().z_index <= x.z_index {
        assert forall|i: int, j: int|
            0 <= i < j < s.push(x).len() implies s.push(x)[i].z_index <= s.push(x)[j].z_index by {
            if j == s.len() {
                if i < s.len() - 1 {
                    assert(s[i].z_index <= s[s.len() - 1].z_index);
                }
            }
        }
    } else {
        assert(z_sorted(s.drop_last()));
        lemma_insert_z_sorted(x, s.drop_last());
        assert(x.z_index <= s.last().z_index);
        assert(forall|k: int|
            0 <= k < s.drop_last().len() ==> s.drop_last()[k].z_index <= s.last().z_index);
        lemma_insert_z_bound(x, s.drop_last(), s.last().z_index);
        let t = insert_z(x, s.drop_last());
        assert forall|i: int, j: int|
            0 <= i < j < t.push(s.last()).len() implies t.push(s.last())[i].z_index <= t.push(
            s.last(),
        )[j].z_index by {
            if j < t.len() {
                assert(t[i].z_index <= t[j].z_index);
            }
        }
    }
}

/// The sort's output is ordered by non-decreasing stacking index.
pub proof fn lemma_sort_by_z_sorted(s: Seq<PanelDb>)
    ensures
        z_sorted(sort_by_z(s)),
    decreases s.len(),
{
    if s.len() == 0 {
    } else {
        lemma_sort_by_z_sorted(s.drop_last());
        lemma_insert_z_sorted(s.last(), sort_by_z(s.drop_last()));
    }
}

/// When everything at or after position `j` stacks strictly above `x`,
/// inserting `x` only rearranges the prefix before `j`.
proof fn lemma_insert_z_suffix(x: PanelDb, s: Seq<PanelDb>, j: int)
    requires
        0 <= j <= s.len(),
        forall|k: int| j <= k < s.len() ==> s[k].z_index > x.z_index,
    ensures
        insert_z(x, s) == insert_z(x, s.take(j)) + s.skip(j),
    decreases s.len() - j,
{
    if j == s.len() {
        assert(s.take(j) =~= s);
        assert(insert_z(x, s.take(j)) + s.skip(j) =~= insert_z(x, s));
    } else {
        assert(s.last().z_index > x.z_index);
        lemma_insert_z_suffix(x, s.drop_last(), j);
        assert(s.drop_last().take(j) =~= s.take(j));
        assert(insert_z(x, s) == insert_z(x, s.drop_last()).push(s.last()));
        assert((insert_z(x, s.take(j)) + s.drop_last().skip(j)).push(s.last()) =~= insert_z(
            x,
            s.take(j),
        ) + s.skip(j));
    }
}

/// Insert one panel record into a vector kept sorted by stacking index.
fn insert_panel_by_z(v: &mut Vec<PanelDb>, x: PanelDb)
    ensures
        final(v)@ == insert_z(x, old(v)@),
{
    let ghost s = v@;
    let mut j: usize = v.len();
    while j > 0 && v[j - 1].z_index > x.z_index
        invariant
            v@ == s,
            j <= s.len(),
            forall|k: int| j <= k < s.len() ==> s[k].z_index > x.z_index,
        decreases j,
    {
        j = j - 1;
    }
    proof {
        lemma_insert_z_suffix(x, s, j as int);
        if j > 0 {
            assert(s.take(j as int).last() == s[j as int - 1]);
            assert(insert_z(x, s.take(j as int)) == s.take(j as int).push(x));
        } else {
            assert(s.take(0).len() == 0);
            assert(insert_z(x, s.take(0)) == seq![x]);
        }
        assert(s.take(j as int).push(x) + s.skip(j as int) =~= s.insert(j as int, x));
        assert(seq![x] + s.skip(0) =~= s.insert(0, x));
    }
    v.insert(j, x);
}

/// Sort panel records by stacking index, stably: equal indices keep their
/// creation order.
pub fn sort_panels_by_z(v: &Vec<PanelDb>) -> (r: Vec<PanelDb>)
    ensures
        r@ == sort_by_z(v@),
{
    let mut out: Vec<PanelDb> = Vec::new();
    let n = v.len();
    let mut i: usize = 0;
    while i < n
        invariant
            n == v@.len(),
            i <= n,
            out@ == sort_by_z(v@.take(i as int)),
        decreases n - i,
    {
        proof {
            lemma_take_step(v@, i as int);
        }
        insert_panel_by_z(&mut out, v[i].duplicate());
        i += 1;
    }
    proof {
        assert(v@.take(n as int) =~= v@);
    }
    out
}

} // verus!
