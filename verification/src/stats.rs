//! The dataset service: CRUD for globally shared datasets and their
//! append-only data rows, and the materialization of stored rows back into
//! the typed representation exposed to callers.

use vstd::prelude::*;
use vstd::string::StringExecFns;

use crate::codec::col_views;
use crate::codec::cols_parsed;
use crate::codec::decode_columns;
use crate::codec::decoded_cols;
use crate::codec::encode_columns;
use crate::codec::json_valid;
use crate::codec::json_wf;
use crate::idgen::new_id;
use crate::idgen::now_rfc3339;
use crate::laws::lemma_no_rows_no_datos;
use crate::models::AddDatasetDataDto;
use crate::models::CreateDatasetDto;
use crate::models::DatasetData;
use crate::models::DbError;
use crate::models::DbResult;
use crate::models::GlobalDataset;
use crate::models::GlobalDatasetDb;
use crate::store::AppState;
use crate::store::datasets_all_newest_first;
use crate::store::datasets_newest_first;
use crate::store::datasets_without;
use crate::store::datos_of;
use crate::store::find_board;
use crate::store::find_dataset;
use crate::store::find_row;
use crate::store::lemma_datasets_without_distinct;
use crate::store::lemma_datasets_without_keeps;
use crate::store::lemma_find_dataset_covers;
use crate::store::lemma_find_row_covers;
use crate::store::lemma_rows_without_distinct;
use crate::store::lemma_rows_without_excludes;
use crate::store::lemma_rows_without_members;
use crate::store::lemma_skip_step;
use crate::store::lemma_take_step;
use crate::store::lookup_dataset;
use crate::store::lookup_row;
use crate::store::rows_without;

verus! {

/// How a dataset exposed to callers relates to its storage record and the row
/// table: same identity and timestamps, the column list decoded from the
/// stored JSON text (empty when that text does not decode), and the row
/// payloads materialized newest first with malformed payloads dropped.
pub open spec fn is_materialized_dataset(
    g: GlobalDataset,
    db: GlobalDatasetDb,
    rows: Seq<DatasetData>,
) -> bool {
    &&& g.id == db.id
    &&& g.nombre == db.nombre
    &&& g.tipo == db.tipo
    &&& g.created_at == db.created_at
    &&& g.updated_at == db.updated_at
    &&& col_views(g.columnas@) == decoded_cols(db.columnas@)
    &&& col_views(g.datos@) == datos_of(rows, db.id@)
}

/// Collect the materialized row payloads of one dataset, newest first,
/// silently dropping any stored payload that is not well-formed JSON.
pub fn collect_datos(rows: &Vec<DatasetData>, dataset_id: &String) -> (r: Vec<String>)
    ensures
        col_views(r@) == datos_of(rows@, dataset_id@),
{
    let mut out: Vec<String> = Vec::new();
    let mut i: usize = rows.len();
    proof {
        assert(rows@.skip(i as int) =~= Seq::<DatasetData>::empty());
        assert(col_views(out@) =~= datos_of(rows@.skip(i as int), dataset_id@));
    }
    while i > 0
        invariant
            i <= rows@.len(),
            col_views(out@) == datos_of(rows@.skip(i as int), dataset_id@),
        decreases i,
    {
        i = i - 1;
        proof {
            lemma_skip_step(rows@, i as int);
        }
        if rows[i].dataset_id == *dataset_id {
            if json_valid(rows[i].data.as_str()) {
                out.push(rows[i].data.clone());
            }
        }
        proof {
            assert(col_views(out@) =~= datos_of(rows@.skip(i as int), dataset_id@));
        }
    }
    proof {
        assert(rows@.skip(0) =~= rows@);
    }
    out
}

/// Decode one dataset record and materialize its rows.
pub fn materialize_dataset(db: &GlobalDatasetDb, rows: &Vec<DatasetData>) -> (g: GlobalDataset)
    ensures
        is_materialized_dataset(g, *db, rows@),
{
    let columnas = match decode_columns(db.columnas.as_str()) {
        Some(v) => v,
        None => {
            let empty: Vec<String> = Vec::new();
            proof {
                assert(col_views(empty@) =~= decoded_cols(db.columnas@));
            }
            empty
        },
    };
    let datos = collect_datos(rows, &db.id);
    GlobalDataset {
        id: db.id.clone(),
        nombre: db.nombre.clone(),
        tipo: db.tipo.clone(),
        columnas,
        created_at: db.created_at.clone(),
        updated_at: db.updated_at.clone(),
        datos,
    }
}

/// List every dataset, newest first, each with its rows materialized.
pub fn get_global_datasets(state: &AppState) -> (r: DbResult<Vec<GlobalDataset>>)
    ensures
        ({
            let sel = datasets_newest_first(state.datasets@);
            &&& r matches Ok(gs)
            &&& gs@.len() == sel.len()
            &&& forall|i: int|
                0 <= i < sel.len() ==> is_materialized_dataset(
                    #[trigger] gs@[i],
                    sel[i],
                    state.dataset_rows@,
                )
        }),
{
    let sel = datasets_all_newest_first(&state.datasets);
    let mut out: Vec<GlobalDataset> = Vec::new();
    let n = sel.len();
    let mut i: usize = 0;
    while i < n
        invariant
            n == sel@.len(),
            i <= n,
            sel@ == datasets_newest_first(state.datasets@),
            out@.len() == i,
            forall|j: int|
                0 <= j < i ==> is_materialized_dataset(
                    #[trigger] out@[j],
                    sel@[j],
                    state.dataset_rows@,
                ),
        decreases n - i,
    {
        let g = materialize_dataset(&sel[i], &state.dataset_rows);
        out.push(g);
        i += 1;
    }
    Ok(out)
}

/// Fetch one dataset by identifier, with its rows materialized; absent means
/// `NotFound`.
pub fn get_dataset_by_id(state: &AppState, dataset_id: String) -> (r: DbResult<GlobalDataset>)
    ensures
        ({
            match find_dataset(state.datasets@, dataset_id@) {
                Option::None => r matches Err(e) && e == DbError::NotFound,
                Option::Some(db) => r matches Ok(g) && is_materialized_dataset(
                    g,
                    db,
                    state.dataset_rows@,
                ),
            }
        }),
{
    match lookup_dataset(&state.datasets, &dataset_id) {
        Some(i) => Ok(materialize_dataset(&state.datasets[i], &state.dataset_rows)),
        None => Err(DbError::NotFound),
    }
}

/// Appending a dataset under a fresh identifier preserves the store's
/// integrity.
proof fn lemma_wf_after_create_dataset(pre: AppState, post: AppState, rec: GlobalDatasetDb)
    requires
        pre.wf(),
        post.datasets@ == pre.datasets@.push(rec),
        post.users@ == pre.users@,
        post.boards@ == pre.boards@,
        post.panels@ == pre.panels@,
        post.dataset_rows@ == pre.dataset_rows@,
        find_dataset(pre.datasets@, rec.id@) is None,
    ensures
        post.wf(),
{
    lemma_find_dataset_covers(pre.datasets@, rec.id@);
    assert forall|i: int, j: int|
        0 <= i < j < post.datasets@.len() implies (#[trigger] post.datasets@[i]).id@
        != (#[trigger] post.datasets@[j]).id@ by {
        if j < pre.datasets@.len() {
            assert(post.datasets@[i] == pre.datasets@[i] && post.datasets@[j] == pre.datasets@[j]);
        } else {
            assert(post.datasets@[i] == pre.datasets@[i] && post.datasets@[j] == rec);
        }
    }
    assert forall|k: int| 0 <= k < post.panels@.len() implies find_board(
        post.boards@,
        (#[trigger] post.panels@[k]).board_id@,
    ) is Some by {
        assert(post.panels@[k] == pre.panels@[k]);
    }
    assert forall|k: int| 0 <= k < post.dataset_rows@.len() implies find_dataset(
        post.datasets@,
        (#[trigger] post.dataset_rows@[k]).dataset_id@,
    ) is Some by {
        assert(post.dataset_rows@[k] == pre.dataset_rows@[k]);
        let did = pre.dataset_rows@[k].dataset_id@;
        assert(find_dataset(pre.datasets@, did) is Some);
        lemma_find_dataset_covers(pre.datasets@, did);
        let m = choose|m: int|
            0 <= m < pre.datasets@.len() && (#[trigger] pre.datasets@[m]).id@ == did;
        assert(post.datasets@[m] == pre.datasets@[m]);
        lemma_find_dataset_covers(post.datasets@, did);
    }
}

/// Dataset creation with the generated values fixed as arguments:
/// deterministic, so its contract is exact. `cols_json` is the encoded column
/// list that goes into storage.
pub fn create_dataset_with(
    state: &mut AppState,
    dto: CreateDatasetDto,
    cols_json: String,
    id: String,
    now: String,
) -> (r: DbResult<GlobalDataset>)
    ensures
        old(state).wf() ==> final(state).wf(),
        old(state).wf() && r is Ok ==> datos_of(final(state).dataset_rows@, id@) == Seq::<
            Seq<char>,
        >::empty(),
        ({
            if find_dataset(old(state).datasets@, id@) is Some {
                &&& r matches Err(e)
                &&& e matches DbError::Store(_)
                &&& *final(state) == *old(state)
            } else {
                &&& final(state).datasets@ == old(state).datasets@.push(
                    (GlobalDatasetDb {
                        id: id,
                        nombre: dto.nombre,
                        tipo: dto.tipo,
                        columnas: cols_json,
                        created_at: now,
                        updated_at: now,
                    }),
                )
                &&& final(state).users@ == old(state).users@
                &&& final(state).boards@ == old(state).boards@
                &&& final(state).panels@ == old(state).panels@
                &&& final(state).dataset_rows@ == old(state).dataset_rows@
                &&& r matches Ok(g)
                &&& g.id == id
                &&& g.nombre == dto.nombre
                &&& g.tipo == dto.tipo
                &&& g.columnas == dto.columnas
                &&& g.created_at == now
                &&& g.updated_at == now
                &&& g.datos@.len() == 0
            }
        }),
{
    if lookup_dataset(&state.datasets, &id).is_some() {
        return Err(DbError::Store(String::from_str("registro duplicado")));
    }
    let rec = GlobalDatasetDb {
        id: id.clone(),
        nombre: dto.nombre.clone(),
        tipo: dto.tipo.clone(),
        columnas: cols_json,
        created_at: now.clone(),
        updated_at: now.clone(),
    };
    state.datasets.push(rec);
    proof {
        if old(state).wf() {
            lemma_wf_after_create_dataset(*old(state), *state, state.datasets@.last());
            lemma_find_dataset_covers(old(state).datasets@, id@);
            assert forall|k: int|
                0 <= k < state.dataset_rows@.len() implies (#[trigger] state.dataset_rows@[k]).dataset_id@
                != id@ by {
                assert(state.dataset_rows@[k] == old(state).dataset_rows@[k]);
                assert(find_dataset(
                    old(state).datasets@,
                    old(state).dataset_rows@[k].dataset_id@,
                ) is Some);
            }
            lemma_no_rows_no_datos(state.dataset_rows@, id@);
        }
    }
    Ok(
        GlobalDataset {
            id,
            nombre: dto.nombre,
            tipo: dto.tipo,
            columnas: dto.columnas,
            created_at: now.clone(),
            updated_at: now,
            datos: Vec::new(),
        },
    )
}

/// Create a dataset: encode the declared column list as JSON text, assign a
/// fresh identifier and timestamps, store the record, and answer with the
/// dataset carrying the same columns and an empty row set. The stored column
/// text is known to decode back to exactly the columns handed in.
pub fn create_dataset(state: &mut AppState, dto: CreateDatasetDto) -> (r: DbResult<GlobalDataset>)
    ensures
        old(state).wf() ==> final(state).wf(),
        old(state).wf() ==> (r matches Ok(g) ==> datos_of(final(state).dataset_rows@, g.id@)
            == Seq::<Seq<char>>::empty()),
        r matches Ok(g) ==> ({
            &&& g.nombre == dto.nombre
            &&& g.tipo == dto.tipo
            &&& g.columnas == dto.columnas
            &&& g.datos@.len() == 0
            &&& find_dataset(old(state).datasets@, g.id@) is None
            &&& final(state).datasets@.len() == old(state).datasets@.len() + 1
            &&& final(state).datasets@ == old(state).datasets@.push(final(state).datasets@.last())
            &&& ({
                let rec = final(state).datasets@.last();
                &&& rec.id == g.id
                &&& rec.nombre == g.nombre
                &&& rec.tipo == g.tipo
                &&& cols_parsed(rec.columnas@) == Some(col_views(g.columnas@))
                &&& json_wf(rec.columnas@)
                &&& rec.created_at == g.created_at
                &&& rec.updated_at == g.updated_at
            })
            &&& final(state).users@ == old(state).users@
            &&& final(state).boards@ == old(state).boards@
            &&& final(state).panels@ == old(state).panels@
            &&& final(state).dataset_rows@ == old(state).dataset_rows@
        }),
        r matches Err(e) ==> *final(state) == *old(state) && (e matches DbError::InvalidData(_)
            || e matches DbError::Store(_)),
{
    let cols_json = match encode_columns(&dto.columnas) {
        Ok(s) => s,
        Err(m) => {
            return Err(DbError::InvalidData(m));
        },
    };
    let id = new_id();
    let now = now_rfc3339();
    create_dataset_with(state, dto, cols_json, id, now)
}

/// The dataset table with the touched record's update timestamp set to `now`:
/// what appending a row does to the parent dataset.
pub open spec fn touch_datasets(
    datasets: Seq<GlobalDatasetDb>,
    dataset_id: Seq<char>,
    now: String,
) -> Seq<GlobalDatasetDb> {
    datasets.map_values(
        |d: GlobalDatasetDb|
            if d.id@ == dataset_id {
                GlobalDatasetDb {
                    id: d.id,
                    nombre: d.nombre,
                    tipo: d.tipo,
                    columnas: d.columnas,
                    created_at: d.created_at,
                    updated_at: now,
                }
            } else {
                d
            },
    )
}

/// Rebuild the dataset table with the update timestamp of `dataset_id`
/// touched.
fn touch_dataset_records(
    datasets: &Vec<GlobalDatasetDb>,
    dataset_id: &String,
    now: &String,
) -> (r: Vec<GlobalDatasetDb>)
    ensures
        r@ == touch_datasets(datasets@, dataset_id@, *now),
{
    let mut out: Vec<GlobalDatasetDb> = Vec::new();
    let n = datasets.len();
    let mut i: usize = 0;
    proof {
        assert(out@ =~= touch_datasets(datasets@.take(0), dataset_id@, *now));
    }
    while i < n
        invariant
            n == datasets@.len(),
            i <= n,
            out@ == touch_datasets(datasets@.take(i as int), dataset_id@, *now),
        decreases n - i,
    {
        proof {
            lemma_take_step(datasets@, i as int);
        }
        if datasets[i].id == *dataset_id {
            let d = &datasets[i];
            out.push(
                GlobalDatasetDb {
                    id: d.id.clone(),
                    nombre: d.nombre.clone(),
                    tipo: d.tipo.clone(),
                    columnas: d.columnas.clone(),
                    created_at: d.created_at.clone(),
                    updated_at: now.clone(),
                },
            );
        } else {
            out.push(datasets[i].duplicate());
        }
        proof {
            assert(out@ =~= touch_datasets(datasets@.take(i as int + 1), dataset_id@, *now));
        }
        i += 1;
    }
    proof {
        assert(datasets@.take(n as int) =~= datasets@);
    }
    out
}

/// Appending a row under a fresh identifier to an existing dataset, and
/// touching that dataset's update timestamp, preserves the store's integrity:
/// the touch changes no identifier.
proof fn lemma_wf_after_add_row(pre: AppState, post: AppState, row: DatasetData, now: String)
    requires
        pre.wf(),
        post.dataset_rows@ == pre.dataset_rows@.push(row),
        post.datasets@ == touch_datasets(pre.datasets@, row.dataset_id@, now),
        post.users@ == pre.users@,
        post.boards@ == pre.boards@,
        post.panels@ == pre.panels@,
        find_row(pre.dataset_rows@, row.id@) is None,
        find_dataset(pre.datasets@, row.dataset_id@) is Some,
    ensures
        post.wf(),
{
    assert(post.datasets@.len() == pre.datasets@.len());
    assert forall|k: int| 0 <= k < post.datasets@.len() implies (#[trigger] post.datasets@[k]).id@
        == pre.datasets@[k].id@ by {}
    assert forall|i: int, j: int|
        0 <= i < j < post.datasets@.len() implies (#[trigger] post.datasets@[i]).id@
        != (#[trigger] post.datasets@[j]).id@ by {
        assert(pre.datasets@[i].id@ != pre.datasets@[j].id@);
    }
    lemma_find_row_covers(pre.dataset_rows@, row.id@);
    assert forall|i: int, j: int|
        0 <= i < j < post.dataset_rows@.len() implies (#[trigger] post.dataset_rows@[i]).id@
        != (#[trigger] post.dataset_rows@[j]).id@ by {
        if j < pre.dataset_rows@.len() {
            assert(post.dataset_rows@[i] == pre.dataset_rows@[i] && post.dataset_rows@[j]
                == pre.dataset_rows@[j]);
        } else {
            assert(post.dataset_rows@[i] == pre.dataset_rows@[i] && post.dataset_rows@[j] == row);
        }
    }
    assert forall|k: int| 0 <= k < post.panels@.len() implies find_board(
        post.boards@,
        (#[trigger] post.panels@[k]).board_id@,
    ) is Some by {
        assert(post.panels@[k] == pre.panels@[k]);
    }
    assert forall|k: int| 0 <= k < post.dataset_rows@.len() implies find_dataset(
        post.datasets@,
        (#[trigger] post.dataset_rows@[k]).dataset_id@,
    ) is Some by {
        let did = post.dataset_rows@[k].dataset_id@;
        if k < pre.dataset_rows@.len() {
            assert(post.dataset_rows@[k] == pre.dataset_rows@[k]);
            assert(find_dataset(pre.datasets@, did) is Some);
        } else {
            assert(post.dataset_rows@[k] == row);
        }
        lemma_find_dataset_covers(pre.datasets@, did);
        let m = choose|m: int|
            0 <= m < pre.datasets@.len() && (#[trigger] pre.datasets@[m]).id@ == did;
        assert(post.datasets@[m].id@ == pre.datasets@[m].id@);
        lemma_find_dataset_covers(post.datasets@, did);
    }
}

/// Row appending with the generated values fixed as arguments: deterministic,
/// so its contract is exact. The row goes in first; only then is the parent
/// dataset's update timestamp touched, with the same instant the row carries.
pub fn add_dataset_data_with(
    state: &mut AppState,
    dto: AddDatasetDataDto,
    id: String,
    now: String,
) -> (r: DbResult<DatasetData>)
    ensures
        old(state).wf() ==> final(state).wf(),
        ({
            if find_dataset(old(state).datasets@, dto.dataset_id@) is None {
                &&& r matches Err(e)
                &&& e == DbError::NotFound
                &&& *final(state) == *old(state)
            } else if !json_wf(dto.data@) {
                &&& r matches Err(e)
                &&& e matches DbError::InvalidData(_)
                &&& *final(state) == *old(state)
            } else if find_row(old(state).dataset_rows@, id@) is Some {
                &&& r matches Err(e)
                &&& e matches DbError::Store(_)
                &&& *final(state) == *old(state)
            } else {
                &&& r matches Ok(d)
                &&& d == (DatasetData {
                    id: id,
                    dataset_id: dto.dataset_id,
                    data: dto.data,
                    created_at: now,
                })
                &&& final(state).dataset_rows@ == old(state).dataset_rows@.push(d)
                &&& final(state).datasets@ == touch_datasets(
                    old(state).datasets@,
                    dto.dataset_id@,
                    now,
                )
                &&& final(state).users@ == old(state).users@
                &&& final(state).boards@ == old(state).boards@
                &&& final(state).panels@ == old(state).panels@
            }
        }),
{
    if lookup_dataset(&state.datasets, &dto.dataset_id).is_none() {
        return Err(DbError::NotFound);
    }
    if !json_valid(dto.data.as_str()) {
        return Err(DbError::InvalidData(String::from_str("JSON inválido")));
    }
    if lookup_row(&state.dataset_rows, &id).is_some() {
        return Err(DbError::Store(String::from_str("registro duplicado")));
    }
    let row = DatasetData {
        id: id,
        dataset_id: dto.dataset_id,
        data: dto.data,
        created_at: now.clone(),
    };
    let out_row = row.duplicate();
    state.dataset_rows.push(row);
    state.datasets = touch_dataset_records(&state.datasets, &out_row.dataset_id, &now);
    proof {
        if old(state).wf() {
            lemma_wf_after_add_row(*old(state), *state, state.dataset_rows@.last(), now);
        }
    }
    Ok(out_row)
}

/// Append one opaque JSON row to a dataset. Absent dataset means `NotFound`;
/// a payload that is not well-formed JSON means `InvalidData`. On success the
/// row is appended and the parent dataset's update timestamp is touched with
/// the row's creation instant.
pub fn add_dataset_data(state: &mut AppState, dto: AddDatasetDataDto) -> (r: DbResult<DatasetData>)
    ensures
        old(state).wf() ==> final(state).wf(),
        find_dataset(old(state).datasets@, dto.dataset_id@) is None ==> ({
            &&& r matches Err(e)
            &&& e == DbError::NotFound
        }),
        find_dataset(old(state).datasets@, dto.dataset_id@) is Some && !json_wf(dto.data@) ==> ({
            &&& r matches Err(e)
            &&& e matches DbError::InvalidData(_)
        }),
        r is Err ==> *final(state) == *old(state),
        r matches Ok(d) ==> ({
            &&& find_dataset(old(state).datasets@, dto.dataset_id@) is Some
            &&& json_wf(dto.data@)
            &&& d.dataset_id == dto.dataset_id
            &&& d.data == dto.data
            &&& d.id@.len() == 36
            &&& final(state).dataset_rows@ == old(state).dataset_rows@.push(d)
            &&& final(state).datasets@ == touch_datasets(
                old(state).datasets@,
                dto.dataset_id@,
                d.created_at,
            )
            &&& final(state).users@ == old(state).users@
            &&& final(state).boards@ == old(state).boards@
            &&& final(state).panels@ == old(state).panels@
        }),
{
    let id = new_id();
    let now = now_rfc3339();
    add_dataset_data_with(state, dto, id, now)
}

/// Rebuild the dataset table without the deleted dataset.
fn remove_dataset_record(datasets: &Vec<GlobalDatasetDb>, id: &String) -> (r: Vec<GlobalDatasetDb>)
    ensures
        r@ == datasets_without(datasets@, id@),
{
    let mut out: Vec<GlobalDatasetDb> = Vec::new();
    let n = datasets.len();
    let mut i: usize = 0;
    while i < n
        invariant
            n == datasets@.len(),
            i <= n,
            out@ == datasets_without(datasets@.take(i as int), id@),
        decreases n - i,
    {
        proof {
            lemma_take_step(datasets@, i as int);
        }
        if !(datasets[i].id == *id) {
            out.push(datasets[i].duplicate());
        }
        i += 1;
    }
    proof {
        assert(datasets@.take(n as int) =~= datasets@);
    }
    out
}

/// Rebuild the row table without the rows of the deleted dataset: the
/// cascading part of the deletion.
fn remove_rows_of_dataset(rows: &Vec<DatasetData>, dataset_id: &String) -> (r: Vec<DatasetData>)
    ensures
        r@ == rows_without(rows@, dataset_id@),
{
    let mut out: Vec<DatasetData> = Vec::new();
    let n = rows.len();
    let mut i: usize = 0;
    while i < n
        invariant
            n == rows@.len(),
            i <= n,
            out@ == rows_without(rows@.take(i as int), dataset_id@),
        decreases n - i,
    {
        proof {
            lemma_take_step(rows@, i as int);
        }
        if !(rows[i].dataset_id == *dataset_id) {
            out.push(rows[i].duplicate());
        }
        i += 1;
    }
    proof {
        assert(rows@.take(n as int) =~= rows@);
    }
    out
}

/// Deleting a dataset together with its rows preserves the store's integrity:
/// the survivors keep their distinct identifiers, and every surviving row
/// still points at a surviving dataset.
proof fn lemma_wf_after_delete(pre: AppState, post: AppState, dataset_id: Seq<char>)
    requires
        pre.wf(),
        post.datasets@ == datasets_without(pre.datasets@, dataset_id),
        post.dataset_rows@ == rows_without(pre.dataset_rows@, dataset_id),
        post.users@ == pre.users@,
        post.boards@ == pre.boards@,
        post.panels@ == pre.panels@,
    ensures
        post.wf(),
{
    lemma_datasets_without_distinct(pre.datasets@, dataset_id);
    lemma_rows_without_distinct(pre.dataset_rows@, dataset_id);
    lemma_rows_without_members(pre.dataset_rows@, dataset_id);
    lemma_rows_without_excludes(pre.dataset_rows@, dataset_id);
    assert forall|k: int| 0 <= k < post.panels@.len() implies find_board(
        post.boards@,
        (#[trigger] post.panels@[k]).board_id@,
    ) is Some by {
        assert(post.panels@[k] == pre.panels@[k]);
    }
    assert forall|k: int| 0 <= k < post.dataset_rows@.len() implies find_dataset(
        post.datasets@,
        (#[trigger] post.dataset_rows@[k]).dataset_id@,
    ) is Some by {
        let did = post.dataset_rows@[k].dataset_id@;
        let m = choose|m: int|
            0 <= m < pre.dataset_rows@.len() && post.dataset_rows@[k] == pre.dataset_rows@[m];
        assert(pre.dataset_rows@[m].dataset_id@ == did);
        assert(find_dataset(pre.datasets@, did) is Some);
        assert(did != dataset_id);
        lemma_find_dataset_covers(pre.datasets@, did);
        let q = choose|q: int|
            0 <= q < pre.datasets@.len() && (#[trigger] pre.datasets@[q]).id@ == did;
        assert(pre.datasets@.contains(pre.datasets@[q]));
        lemma_datasets_without_keeps(pre.datasets@, dataset_id, pre.datasets@[q]);
        let w = choose|w: int| 0 <= w < post.datasets@.len() && post.datasets@[w]
            == pre.datasets@[q];
        assert(post.datasets@[w].id@ == did);
        lemma_find_dataset_covers(post.datasets@, did);
    }
}

/// Delete a dataset and, cascading, all of its rows. Absent means `NotFound`;
/// boards and panels are untouched, so a panel bound to the deleted dataset
/// survives and merely loses its data source.
pub fn delete_dataset(state: &mut AppState, dataset_id: String) -> (r: DbResult<()>)
    ensures
        old(state).wf() ==> final(state).wf(),
        ({
            if find_dataset(old(state).datasets@, dataset_id@) is None {
                &&& r matches Err(e)
                &&& e == DbError::NotFound
                &&& *final(state) == *old(state)
            } else {
                &&& r is Ok
                &&& final(state).datasets@ == datasets_without(old(state).datasets@, dataset_id@)
                &&& final(state).dataset_rows@ == rows_without(
                    old(state).dataset_rows@,
                    dataset_id@,
                )
                &&& final(state).users@ == old(state).users@
                &&& final(state).boards@ == old(state).boards@
                &&& final(state).panels@ == old(state).panels@
            }
        }),
{
    if lookup_dataset(&state.datasets, &dataset_id).is_none() {
        return Err(DbError::NotFound);
    }
    state.datasets = remove_dataset_record(&state.datasets, &dataset_id);
    state.dataset_rows = remove_rows_of_dataset(&state.dataset_rows, &dataset_id);
    proof {
        if old(state).wf() {
            lemma_wf_after_delete(*old(state), *state, dataset_id@);
        }
    }
    Ok(())
}

} // verus!
