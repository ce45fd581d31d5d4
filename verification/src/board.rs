//! The board and panel composition engine, the core of the library: CRUD for
//! boards and panels, and the assembly of a board's full panel list.
//!
//! Assembly fetches the board's raw panel records ordered by stacking index
//! (stable: equal indices keep creation order), decodes the flat columns into
//! the nested position and size values, decodes the stored configuration text
//! (an unreadable text degrades to the empty object), and, for a panel bound
//! to a dataset, materializes that dataset into the panel's transient `data`
//! field — a binding whose dataset has vanished degrades to an absent `data`,
//! never to a failure of the whole fetch. Each bound panel triggers its own
//! dataset resolution, one at a time; that known scaling limit is kept behind
//! the single seam `get_dataset_data_for_panel`.

use vstd::prelude::*;
use vstd::string::StringExecFns;

use crate::codec::col_views;
use crate::codec::decode_columns;
use crate::codec::decoded_cols;
use crate::codec::json_valid;
use crate::codec::json_wf;
use crate::idgen::new_id;
use crate::idgen::now_rfc3339;
use crate::laws::lemma_no_panels_of_fresh_board;
use crate::models::Board;
use crate::models::BoardDb;
use crate::models::CreateBoardDto;
use crate::models::CreatePanelDto;
use crate::models::DatasetData;
use crate::models::DbError;
use crate::models::DbResult;
use crate::models::GlobalDatasetDb;
use crate::models::Panel;
use crate::models::PanelData;
use crate::models::PanelDb;
use crate::models::Position;
use crate::models::Size;
use crate::models::duplicate_opt_string;
use crate::stats::collect_datos;
use crate::store::AppState;
use crate::store::boards_for_user;
use crate::store::boards_newest_first;
use crate::store::datos_of;
use crate::store::find_board;
use crate::store::find_board_owned;
use crate::store::find_dataset;
use crate::store::find_panel;
use crate::store::lemma_find_board_covers;
use crate::store::lemma_find_board_owned_implies_find_board;
use crate::store::lemma_find_board_owned_push;
use crate::store::lemma_find_panel_covers;
use crate::store::lemma_find_panel_push;
use crate::store::lemma_sort_by_z_sorted;
use crate::store::lookup_board;
use crate::store::lookup_board_owned;
use crate::store::lookup_dataset;
use crate::store::lookup_panel;
use crate::store::panel_rows_for_board;
use crate::store::panels_of;
use crate::store::sort_by_z;
use crate::store::sort_panels_by_z;
use crate::store::z_sorted;

verus! {

/// The configuration a stored text decodes to: the text itself when it is
/// well-formed JSON, the empty object otherwise (best-effort degradation).
pub open spec fn decoded_config(s: Seq<char>) -> Seq<char> {
    if json_wf(s) {
        s
    } else {
        "{}"@
    }
}

/// How a panel's materialized dataset payload relates to the dataset record
/// it was resolved from and the row table: the dataset's name and type, its
/// decoded column list, and its row payloads newest first.
pub open spec fn is_dataset_snapshot(
    pd: PanelData,
    ds: GlobalDatasetDb,
    rows: Seq<DatasetData>,
) -> bool {
    &&& pd.nombre == ds.nombre
    &&& pd.tipo == ds.tipo
    &&& col_views(pd.columnas@) == decoded_cols(ds.columnas@)
    &&& col_views(pd.datos@) == datos_of(rows, ds.id@)
}

/// How an assembled panel relates to its storage record and the dataset and
/// row tables: flat columns decoded into the nested values, the configuration
/// decoded with its degradation, and the dataset binding resolved — absent
/// binding or vanished dataset both leave `data` absent.
pub open spec fn is_assembled_panel(
    p: Panel,
    db: PanelDb,
    datasets: Seq<GlobalDatasetDb>,
    rows: Seq<DatasetData>,
) -> bool {
    &&& p.id == db.id
    &&& p.board_id == db.board_id
    &&& p.tipo == db.tipo
    &&& p.titulo == db.titulo
    &&& p.posicion == (Position { x: db.posicion_x, y: db.posicion_y })
    &&& p.tamano == (Size { width: db.ancho, height: db.alto })
    &&& p.z_index == db.z_index
    &&& p.activo == (db.activo != 0)
    &&& p.dataset_id == db.dataset_id
    &&& p.config@ == decoded_config(db.config@)
    &&& p.created_at == db.created_at
    &&& p.updated_at == db.updated_at
    &&& (match db.dataset_id {
        Option::None => p.data is None,
        Option::Some(did) => match find_dataset(datasets, did@) {
            Option::None => p.data is None,
            Option::Some(ds) => p.data matches Some(pd) && is_dataset_snapshot(pd, ds, rows),
        },
    })
}

/// How an assembled board relates to its storage record and the panel,
/// dataset and row tables: same fields, and its panel list assembled from the
/// board's panel records ordered by stacking index.
pub open spec fn is_composed_board(
    b: Board,
    db: BoardDb,
    panels: Seq<PanelDb>,
    datasets: Seq<GlobalDatasetDb>,
    rows: Seq<DatasetData>,
) -> bool {
    &&& b.id == db.id
    &&& b.user_id == db.user_id
    &&& b.title == db.title
    &&& b.description == db.description
    &&& b.icon == db.icon
    &&& b.color == db.color
    &&& b.created_at == db.created_at
    &&& b.updated_at == db.updated_at
    &&& ({
        let sorted = sort_by_z(panels_of(panels, db.id@));
        &&& b.panels@.len() == sorted.len()
        &&& forall|i: int|
            0 <= i < sorted.len() ==> is_assembled_panel(
                #[trigger] b.panels@[i],
                sorted[i],
                datasets,
                rows,
            )
    })
}

/// Resolve one dataset for one panel: the single seam behind which each bound
/// panel's dataset fetch happens. Absent dataset means `NotFound`; the caller
/// swallows that into an absent `data` field.
pub fn get_dataset_data_for_panel(state: &AppState, dataset_id: &String) -> (r: DbResult<
    PanelData,
>)
    ensures
        ({
            match find_dataset(state.datasets@, dataset_id@) {
                Option::None => r matches Err(e) && e == DbError::NotFound,
                Option::Some(ds) => r matches Ok(pd) && is_dataset_snapshot(
                    pd,
                    ds,
                    state.dataset_rows@,
                ),
            }
        }),
{
    let i = match lookup_dataset(&state.datasets, dataset_id) {
        Some(i) => i,
        None => {
            return Err(DbError::NotFound);
        },
    };
    let ds = &state.datasets[i];
    let columnas = match decode_columns(ds.columnas.as_str()) {
        Some(v) => v,
        None => {
            let empty: Vec<String> = Vec::new();
            proof {
                assert(col_views(empty@) =~= decoded_cols(ds.columnas@));
            }
            empty
        },
    };
    let datos = collect_datos(&state.dataset_rows, &ds.id);
    Ok(PanelData { nombre: ds.nombre.clone(), tipo: ds.tipo.clone(), columnas, datos })
}

/// Decode one panel record and resolve its dataset binding.
fn assemble_panel(state: &AppState, db: &PanelDb) -> (p: Panel)
    ensures
        is_assembled_panel(p, *db, state.datasets@, state.dataset_rows@),
{
    let config = if json_valid(db.config.as_str()) {
        db.config.clone()
    } else {
        String::from_str("{}")
    };
    let data = match &db.dataset_id {
        Some(did) => match get_dataset_data_for_panel(state, did) {
            Ok(pd) => Some(pd),
            Err(_) => None,
        },
        None => None,
    };
    Panel {
        id: db.id.clone(),
        board_id: db.board_id.clone(),
        tipo: db.tipo.clone(),
        titulo: db.titulo.clone(),
        posicion: Position { x: db.posicion_x, y: db.posicion_y },
        tamano: Size { width: db.ancho, height: db.alto },
        z_index: db.z_index,
        activo: db.activo != 0,
        dataset_id: duplicate_opt_string(&db.dataset_id),
        config,
        data,
        created_at: db.created_at.clone(),
        updated_at: db.updated_at.clone(),
    }
}

/// Assemble the full panel list of one board: records ordered by
/// non-decreasing stacking index (stable for equal indices), each decoded and
/// with its dataset binding resolved. A vanished dataset never fails the
/// fetch: that panel merely comes back without `data`.
pub fn get_panels_for_board(state: &AppState, board_id: &String) -> (r: DbResult<Vec<Panel>>)
    ensures
        ({
            let sorted = sort_by_z(panels_of(state.panels@, board_id@));
            &&& r matches Ok(ps)
            &&& ps@.len() == sorted.len()
            &&& forall|i: int|
                0 <= i < sorted.len() ==> is_assembled_panel(
                    #[trigger] ps@[i],
                    sorted[i],
                    state.datasets@,
                    state.dataset_rows@,
                )
        }),
        r matches Ok(ps) ==> forall|i: int, j: int|
            0 <= i < j < ps@.len() ==> ps@[i].z_index <= ps@[j].z_index,
{
    let raw = panel_rows_for_board(&state.panels, board_id);
    let sorted = sort_panels_by_z(&raw);
    let mut out: Vec<Panel> = Vec::new();
    let n = sorted.len();
    let mut i: usize = 0;
    while i < n
        invariant
            n == sorted@.len(),
            i <= n,
            sorted@ == sort_by_z(panels_of(state.panels@, board_id@)),
            out@.len() == i,
            forall|j: int|
                0 <= j < i ==> is_assembled_panel(
                    #[trigger] out@[j],
                    sorted@[j],
                    state.datasets@,
                    state.dataset_rows@,
                ),
        decreases n - i,
    {
        let p = assemble_panel(state, &sorted[i]);
        out.push(p);
        i += 1;
    }
    proof {
        lemma_sort_by_z_sorted(panels_of(state.panels@, board_id@));
        assert(z_sorted(sorted@));
        assert forall|a: int, b: int| 0 <= a < b < out@.len() implies out@[a].z_index
            <= out@[b].z_index by {
            assert(is_assembled_panel(out@[a], sorted@[a], state.datasets@, state.dataset_rows@));
            assert(is_assembled_panel(out@[b], sorted@[b], state.datasets@, state.dataset_rows@));
        }
    }
    Ok(out)
}

/// Fetch one panel by identifier, fully assembled; absent means `NotFound`.
pub fn get_panel_with_data(state: &AppState, panel_id: &String) -> (r: DbResult<Panel>)
    ensures
        ({
            match find_panel(state.panels@, panel_id@) {
                Option::None => r matches Err(e) && e == DbError::NotFound,
                Option::Some(db) => r matches Ok(p) && is_assembled_panel(
                    p,
                    db,
                    state.datasets@,
                    state.dataset_rows@,
                ),
            }
        }),
{
    match lookup_panel(&state.panels, panel_id) {
        Some(i) => Ok(assemble_panel(state, &state.panels[i])),
        None => Err(DbError::NotFound),
    }
}

/// Fetch one board by identifier, filtered by owner, with its panels
/// assembled. No match — whether the board is absent or belongs to someone
/// else — means `NotFound`: ownership is indistinguishable from absence here,
/// so existence never leaks across owners.
pub fn get_board_by_id(state: &AppState, board_id: String, user_id: String) -> (r: DbResult<Board>)
    ensures
        ({
            match find_board_owned(state.boards@, board_id@, user_id@) {
                Option::None => r matches Err(e) && e == DbError::NotFound,
                Option::Some(db) => r matches Ok(b) && is_composed_board(
                    b,
                    db,
                    state.panels@,
                    state.datasets@,
                    state.dataset_rows@,
                ),
            }
        }),
{
    let i = match lookup_board_owned(&state.boards, &board_id, &user_id) {
        Some(i) => i,
        None => {
            return Err(DbError::NotFound);
        },
    };
    let db = state.boards[i].duplicate();
    let panels = match get_panels_for_board(state, &db.id) {
        Ok(ps) => ps,
        Err(e) => {
            return Err(e);
        },
    };
    Ok(
        Board {
            id: db.id,
            user_id: db.user_id,
            title: db.title,
            description: db.description,
            icon: db.icon,
            color: db.color,
            created_at: db.created_at,
            updated_at: db.updated_at,
            panels,
        },
    )
}

/// List the boards of one user, newest first, each with its panels assembled.
/// Assembly itself is total — a vanished dataset or unreadable stored text
/// degrades per panel, never into a failure — so the listing has no partial
/// result to return: it is the whole list or, on a store failure, nothing.
pub fn get_my_boards(state: &AppState, user_id: String) -> (r: DbResult<Vec<Board>>)
    ensures
        ({
            let sel = boards_newest_first(state.boards@, user_id@);
            &&& r matches Ok(bs)
            &&& bs@.len() == sel.len()
            &&& forall|i: int|
                0 <= i < sel.len() ==> is_composed_board(
                    #[trigger] bs@[i],
                    sel[i],
                    state.panels@,
                    state.datasets@,
                    state.dataset_rows@,
                )
        }),
{
    let sel = boards_for_user(&state.boards, &user_id);
    let mut out: Vec<Board> = Vec::new();
    let n = sel.len();
    let mut i: usize = 0;
    while i < n
        invariant
            n == sel@.len(),
            i <= n,
            sel@ == boards_newest_first(state.boards@, user_id@),
            out@.len() == i,
            forall|j: int|
                0 <= j < i ==> is_composed_board(
                    #[trigger] out@[j],
                    sel@[j],
                    state.panels@,
                    state.datasets@,
                    state.dataset_rows@,
                ),
        decreases n - i,
    {
        let db = &sel[i];
        let panels = match get_panels_for_board(state, &db.id) {
            Ok(ps) => ps,
            Err(e) => {
                return Err(e);
            },
        };
        let b = Board {
            id: db.id.clone(),
            user_id: db.user_id.clone(),
            title: db.title.clone(),
            description: db.description.clone(),
            icon: db.icon.clone(),
            color: db.color.clone(),
            created_at: db.created_at.clone(),
            updated_at: db.updated_at.clone(),
            panels,
        };
        out.push(b);
        i += 1;
    }
    Ok(out)
}

/// Appending a board under a fresh identifier preserves the store's
/// integrity.
proof fn lemma_wf_after_create_board(pre: AppState, post: AppState, rec: BoardDb)
    requires
        pre.wf(),
        post.boards@ == pre.boards@.push(rec),
        post.users@ == pre.users@,
        post.panels@ == pre.panels@,
        post.datasets@ == pre.datasets@,
        post.dataset_rows@ == pre.dataset_rows@,
        find_board(pre.boards@, rec.id@) is None,
    ensures
        post.wf(),
{
    lemma_find_board_covers(pre.boards@, rec.id@);
    assert forall|i: int, j: int| 0 <= i < j < post.boards@.len() implies (#[trigger] post.boards@[i]).id@
        != (#[trigger] post.boards@[j]).id@ by {
        if j < pre.boards@.len() {
            assert(post.boards@[i] == pre.boards@[i] && post.boards@[j] == pre.boards@[j]);
        } else {
            assert(post.boards@[i] == pre.boards@[i] && post.boards@[j] == rec);
        }
    }
    assert forall|k: int| 0 <= k < post.panels@.len() implies find_board(
        post.boards@,
        (#[trigger] post.panels@[k]).board_id@,
    ) is Some by {
        assert(post.panels@[k] == pre.panels@[k]);
        let bid = pre.panels@[k].board_id@;
        assert(find_board(pre.boards@, bid) is Some);
        lemma_find_board_covers(pre.boards@, bid);
        let m = choose|m: int| 0 <= m < pre.boards@.len() && (#[trigger] pre.boards@[m]).id@ == bid;
        assert(post.boards@[m] == pre.boards@[m]);
        lemma_find_board_covers(post.boards@, bid);
    }
    assert forall|k: int| 0 <= k < post.dataset_rows@.len() implies find_dataset(
        post.datasets@,
        (#[trigger] post.dataset_rows@[k]).dataset_id@,
    ) is Some by {
        assert(post.dataset_rows@[k] == pre.dataset_rows@[k]);
    }
}

/// Appending a panel under a fresh identifier, pointed at an existing board,
/// preserves the store's integrity.
proof fn lemma_wf_after_create_panel(pre: AppState, post: AppState, rec: PanelDb)
    requires
        pre.wf(),
        post.panels@ == pre.panels@.push(rec),
        post.users@ == pre.users@,
        post.boards@ == pre.boards@,
        post.datasets@ == pre.datasets@,
        post.dataset_rows@ == pre.dataset_rows@,
        find_panel(pre.panels@, rec.id@) is None,
        find_board(pre.boards@, rec.board_id@) is Some,
    ensures
        post.wf(),
{
    lemma_find_panel_covers(pre.panels@, rec.id@);
    assert forall|i: int, j: int| 0 <= i < j < post.panels@.len() implies (#[trigger] post.panels@[i]).id@
        != (#[trigger] post.panels@[j]).id@ by {
        if j < pre.panels@.len() {
            assert(post.panels@[i] == pre.panels@[i] && post.panels@[j] == pre.panels@[j]);
        } else {
            assert(post.panels@[i] == pre.panels@[i] && post.panels@[j] == rec);
        }
    }
    assert forall|k: int| 0 <= k < post.panels@.len() implies find_board(
        post.boards@,
        (#[trigger] post.panels@[k]).board_id@,
    ) is Some by {
        if k < pre.panels@.len() {
            assert(post.panels@[k] == pre.panels@[k]);
        } else {
            assert(post.panels@[k] == rec);
        }
    }
    assert forall|k: int| 0 <= k < post.dataset_rows@.len() implies find_dataset(
        post.datasets@,
        (#[trigger] post.dataset_rows@[k]).dataset_id@,
    ) is Some by {
        assert(post.dataset_rows@[k] == pre.dataset_rows@[k]);
    }
}

/// Board creation with the generated values fixed as arguments:
/// deterministic, so its contract is exact. The board is inserted and then
/// composed back through the ownership-scoped read, as every caller sees it.
pub fn create_board_with(
    state: &mut AppState,
    user_id: String,
    dto: CreateBoardDto,
    id: String,
    now: String,
) -> (r: DbResult<Board>)
    ensures
        old(state).wf() ==> final(state).wf(),
        old(state).wf() ==> (r matches Ok(b) ==> b.panels@.len() == 0),
        ({
            if find_board(old(state).boards@, id@) is Some {
                &&& r matches Err(e)
                &&& e matches DbError::Store(_)
                &&& *final(state) == *old(state)
            } else {
                &&& final(state).boards@ == old(state).boards@.push(
                    (BoardDb {
                        id: id,
                        user_id: user_id,
                        title: dto.title,
                        description: dto.description,
                        icon: dto.icon,
                        color: dto.color,
                        created_at: now,
                        updated_at: now,
                    }),
                )
                &&& final(state).users@ == old(state).users@
                &&& final(state).panels@ == old(state).panels@
                &&& final(state).datasets@ == old(state).datasets@
                &&& final(state).dataset_rows@ == old(state).dataset_rows@
                &&& r matches Ok(b)
                &&& is_composed_board(
                    b,
                    (BoardDb {
                        id: id,
                        user_id: user_id,
                        title: dto.title,
                        description: dto.description,
                        icon: dto.icon,
                        color: dto.color,
                        created_at: now,
                        updated_at: now,
                    }),
                    final(state).panels@,
                    final(state).datasets@,
                    final(state).dataset_rows@,
                )
            }
        }),
{
    if lookup_board(&state.boards, &id).is_some() {
        return Err(DbError::Store(String::from_str("registro duplicado")));
    }
    let rec = BoardDb {
        id: id.clone(),
        user_id: user_id.clone(),
        title: dto.title,
        description: dto.description,
        icon: dto.icon,
        color: dto.color,
        created_at: now.clone(),
        updated_at: now,
    };
    let ghost boards_before = state.boards@;
    let ghost rec_spec = rec;
    state.boards.push(rec);
    proof {
        lemma_find_board_owned_push(boards_before, rec_spec, user_id@);
        if old(state).wf() {
            lemma_wf_after_create_board(*old(state), *state, rec_spec);
            lemma_find_board_covers(boards_before, rec_spec.id@);
            assert forall|k: int|
                0 <= k < state.panels@.len() implies (#[trigger] state.panels@[k]).board_id@
                != rec_spec.id@ by {
                assert(state.panels@[k] == old(state).panels@[k]);
                assert(find_board(boards_before, old(state).panels@[k].board_id@) is Some);
            }
            lemma_no_panels_of_fresh_board(state.panels@, rec_spec.id@);
        }
    }
    get_board_by_id(state, id, user_id)
}

/// Create a board owned by `user_id`: assign a fresh identifier and
/// timestamps, insert, and answer with the freshly composed board.
pub fn create_board(state: &mut AppState, user_id: String, dto: CreateBoardDto) -> (r: DbResult<
    Board,
>)
    ensures
        old(state).wf() ==> final(state).wf(),
        old(state).wf() ==> (r matches Ok(b) ==> b.panels@.len() == 0),
        r matches Ok(b) ==> ({
            &&& find_board(old(state).boards@, b.id@) is None
            &&& final(state).boards@.len() == old(state).boards@.len() + 1
            &&& final(state).boards@ == old(state).boards@.push(final(state).boards@.last())
            &&& is_composed_board(
                b,
                final(state).boards@.last(),
                final(state).panels@,
                final(state).datasets@,
                final(state).dataset_rows@,
            )
            &&& b.user_id == user_id
            &&& b.title == dto.title
            &&& b.description == dto.description
            &&& b.icon == dto.icon
            &&& b.color == dto.color
            &&& final(state).users@ == old(state).users@
            &&& final(state).panels@ == old(state).panels@
            &&& final(state).datasets@ == old(state).datasets@
            &&& final(state).dataset_rows@ == old(state).dataset_rows@
        }),
        r matches Err(e) ==> *final(state) == *old(state) && e matches DbError::Store(_),
{
    let id = new_id();
    let now = now_rfc3339();
    create_board_with(state, user_id, dto, id, now)
}

/// The panel record that creating `dto` inserts: flat columns from the nested
/// values, inactive by default, and the configuration text defaulted to the
/// empty object when omitted.
pub open spec fn is_new_panel_record(
    rec: PanelDb,
    dto: CreatePanelDto,
    id: Seq<char>,
    now: Seq<char>,
) -> bool {
    &&& rec.id@ == id
    &&& rec.board_id == dto.board_id
    &&& rec.tipo == dto.tipo
    &&& rec.titulo == dto.titulo
    &&& rec.posicion_x == dto.posicion.x
    &&& rec.posicion_y == dto.posicion.y
    &&& rec.ancho == dto.tamano.width
    &&& rec.alto == dto.tamano.height
    &&& rec.z_index == dto.z_index
    &&& rec.activo == 0
    &&& rec.dataset_id == dto.dataset_id
    &&& (dto.config matches Some(c) ==> rec.config == c)
    &&& (dto.config is None ==> rec.config@ == "{}"@)
    &&& rec.created_at@ == now
    &&& rec.updated_at@ == now
}

/// Panel creation with the generated values fixed as arguments:
/// deterministic, so its contract is exact. The target board must exist under
/// the calling user: a board under a different owner — or no board at all —
/// is `Unauthorized`, deliberately distinct from `get_board_by_id`'s
/// `NotFound`.
pub fn create_panel_with(
    state: &mut AppState,
    user_id: String,
    dto: CreatePanelDto,
    id: String,
    now: String,
) -> (r: DbResult<Panel>)
    ensures
        old(state).wf() ==> final(state).wf(),
        ({
            if find_board_owned(old(state).boards@, dto.board_id@, user_id@) is None {
                &&& r matches Err(e)
                &&& e == DbError::Unauthorized
                &&& *final(state) == *old(state)
            } else if find_panel(old(state).panels@, id@) is Some {
                &&& r matches Err(e)
                &&& e matches DbError::Store(_)
                &&& *final(state) == *old(state)
            } else {
                &&& final(state).panels@.len() == old(state).panels@.len() + 1
                &&& final(state).panels@ == old(state).panels@.push(final(state).panels@.last())
                &&& is_new_panel_record(final(state).panels@.last(), dto, id@, now@)
                &&& final(state).users@ == old(state).users@
                &&& final(state).boards@ == old(state).boards@
                &&& final(state).datasets@ == old(state).datasets@
                &&& final(state).dataset_rows@ == old(state).dataset_rows@
                &&& r matches Ok(p)
                &&& is_assembled_panel(
                    p,
                    final(state).panels@.last(),
                    final(state).datasets@,
                    final(state).dataset_rows@,
                )
            }
        }),
{
    if lookup_board_owned(&state.boards, &dto.board_id, &user_id).is_none() {
        return Err(DbError::Unauthorized);
    }
    if lookup_panel(&state.panels, &id).is_some() {
        return Err(DbError::Store(String::from_str("registro duplicado")));
    }
    let config = match dto.config {
        Some(c) => c,
        None => String::from_str("{}"),
    };
    let rec = PanelDb {
        id: id.clone(),
        board_id: dto.board_id,
        tipo: dto.tipo,
        titulo: dto.titulo,
        posicion_x: dto.posicion.x,
        posicion_y: dto.posicion.y,
        ancho: dto.tamano.width,
        alto: dto.tamano.height,
        z_index: dto.z_index,
        activo: 0,
        dataset_id: dto.dataset_id,
        config,
        created_at: now.clone(),
        updated_at: now,
    };
    let ghost panels_before = state.panels@;
    let ghost rec_spec = rec;
    state.panels.push(rec);
    proof {
        lemma_find_panel_push(panels_before, rec_spec);
        if old(state).wf() {
            lemma_find_board_owned_implies_find_board(
                old(state).boards@,
                rec_spec.board_id@,
                user_id@,
            );
            lemma_wf_after_create_panel(*old(state), *state, rec_spec);
        }
    }
    get_panel_with_data(state, &id)
}

/// Create a panel on a board the calling user owns. A board under a different
/// owner — or no board at all — is `Unauthorized`, not `NotFound`. The panel
/// is inserted inactive, with its configuration defaulted to the empty JSON
/// object when omitted, and answered fully assembled (dataset binding
/// resolved).
pub fn create_panel(state: &mut AppState, user_id: String, dto: CreatePanelDto) -> (r: DbResult<
    Panel,
>)
    ensures
        old(state).wf() ==> final(state).wf(),
        find_board_owned(old(state).boards@, dto.board_id@, user_id@) is None ==> ({
            &&& r matches Err(e)
            &&& e == DbError::Unauthorized
        }),
        r is Err ==> *final(state) == *old(state),
        r matches Err(e) ==> e == DbError::Unauthorized || e matches DbError::Store(_),
        r matches Ok(p) ==> ({
            &&& find_board_owned(old(state).boards@, dto.board_id@, user_id@) is Some
            &&& final(state).panels@.len() == old(state).panels@.len() + 1
            &&& final(state).panels@ == old(state).panels@.push(final(state).panels@.last())
            &&& is_new_panel_record(
                final(state).panels@.last(),
                dto,
                final(state).panels@.last().id@,
                final(state).panels@.last().created_at@,
            )
            &&& is_assembled_panel(
                p,
                final(state).panels@.last(),
                final(state).datasets@,
                final(state).dataset_rows@,
            )
            &&& final(state).users@ == old(state).users@
            &&& final(state).boards@ == old(state).boards@
            &&& final(state).datasets@ == old(state).datasets@
            &&& final(state).dataset_rows@ == old(state).dataset_rows@
        }),
{
    let id = new_id();
    let now = now_rfc3339();
    create_panel_with(state, user_id, dto, id, now)
}

} // verus!
