use boardstore::auth::register_user;
use boardstore::board::create_board;
use boardstore::board::create_panel;
use boardstore::board::get_my_boards;
use boardstore::models::AddDatasetDataDto;
use boardstore::models::CreateBoardDto;
use boardstore::models::CreateDatasetDto;
use boardstore::models::CreatePanelDto;
use boardstore::models::CreateUserDto;
use boardstore::models::DatasetData;
use boardstore::models::DbError;
use boardstore::models::Position;
use boardstore::models::Size;
use boardstore::stats::add_dataset_data;
use boardstore::stats::create_dataset;
use boardstore::stats::delete_dataset;
use boardstore::stats::get_dataset_by_id;
use boardstore::stats::get_global_datasets;
use boardstore::store::AppState;

fn dataset_dto(nombre: &str, columnas: &[&str]) -> CreateDatasetDto {
    CreateDatasetDto {
        nombre: nombre.to_string(),
        tipo: "tabla".to_string(),
        columnas: columnas.iter().map(|c| c.to_string()).collect(),
    }
}

fn row_dto(dataset_id: &str, data: &str) -> AddDatasetDataDto {
    AddDatasetDataDto { dataset_id: dataset_id.to_string(), data: data.to_string() }
}

#[test]
fn dataset_round_trip_keeps_columns_and_orders_rows_newest_first() {
    let mut state = AppState::new();
    let created = create_dataset(&mut state, dataset_dto("ventas", &["mes", "total"])).unwrap();
    assert_eq!(created.nombre, "ventas");
    assert_eq!(created.tipo, "tabla");
    assert_eq!(created.columnas, vec!["mes".to_string(), "total".to_string()]);
    assert!(created.datos.is_empty());

    let fetched = get_dataset_by_id(&state, created.id.clone()).unwrap();
    assert_eq!(fetched.columnas, vec!["mes".to_string(), "total".to_string()]);
    assert!(fetched.datos.is_empty());

    let first = add_dataset_data(&mut state, row_dto(&created.id, "{\"mes\":\"enero\"}")).unwrap();
    assert_eq!(first.dataset_id, created.id);
    assert_eq!(first.data, "{\"mes\":\"enero\"}");
    let second = add_dataset_data(&mut state, row_dto(&created.id, "{\"mes\":\"febrero\"}"))
        .unwrap();
    assert_ne!(first.id, second.id);

    let with_rows = get_dataset_by_id(&state, created.id.clone()).unwrap();
    assert_eq!(with_rows.datos.len(), 2);
    assert_eq!(with_rows.datos[0], "{\"mes\":\"febrero\"}");
    assert_eq!(with_rows.datos[1], "{\"mes\":\"enero\"}");
    // Appending a row touches the parent dataset's update timestamp with the
    // row's creation instant.
    assert_eq!(with_rows.updated_at, second.created_at);
}

#[test]
fn datasets_list_newest_first_with_rows() {
    let mut state = AppState::new();
    let older = create_dataset(&mut state, dataset_dto("antiguo", &["a"])).unwrap();
    let newer = create_dataset(&mut state, dataset_dto("reciente", &["b"])).unwrap();
    add_dataset_data(&mut state, row_dto(&older.id, "{\"a\":1}")).unwrap();

    let all = get_global_datasets(&state).unwrap();
    assert_eq!(all.len(), 2);
    assert_eq!(all[0].nombre, "reciente");
    assert_eq!(all[1].nombre, "antiguo");
    assert!(all[0].datos.is_empty());
    assert_eq!(all[1].datos, vec!["{\"a\":1}".to_string()]);
}

#[test]
fn add_row_to_missing_dataset_is_notfound() {
    let mut state = AppState::new();
    let missing = add_dataset_data(&mut state, row_dto("no-such-dataset", "{}"));
    assert!(matches!(missing, Err(DbError::NotFound)));
    assert!(state.dataset_rows.is_empty());
}

#[test]
fn add_row_with_malformed_json_is_invalid_data() {
    let mut state = AppState::new();
    let ds = create_dataset(&mut state, dataset_dto("ventas", &["mes"])).unwrap();
    let rejected = add_dataset_data(&mut state, row_dto(&ds.id, "{esto no es json"));
    assert!(matches!(rejected, Err(DbError::InvalidData(_))));
    assert!(state.dataset_rows.is_empty());
}

#[test]
fn corrupted_stored_row_is_silently_dropped() {
    let mut state = AppState::new();
    let ds = create_dataset(&mut state, dataset_dto("ventas", &["mes"])).unwrap();
    add_dataset_data(&mut state, row_dto(&ds.id, "{\"mes\":\"enero\"}")).unwrap();
    // Corruption can only arise outside the write path; forge it directly.
    state.dataset_rows.push(DatasetData {
        id: "corrupt-row".to_string(),
        dataset_id: ds.id.clone(),
        data: "{truncado".to_string(),
        created_at: "2024-01-01T00:00:00+00:00".to_string(),
    });

    let fetched = get_dataset_by_id(&state, ds.id.clone()).unwrap();
    assert_eq!(fetched.datos, vec!["{\"mes\":\"enero\"}".to_string()]);
}

#[test]
fn delete_dataset_cascades_and_missing_delete_is_notfound() {
    let mut state = AppState::new();
    let missing = delete_dataset(&mut state, "no-such-dataset".to_string());
    assert!(matches!(missing, Err(DbError::NotFound)));

    let keep = create_dataset(&mut state, dataset_dto("se-queda", &["x"])).unwrap();
    let doomed = create_dataset(&mut state, dataset_dto("se-va", &["y"])).unwrap();
    add_dataset_data(&mut state, row_dto(&doomed.id, "{\"y\":1}")).unwrap();
    add_dataset_data(&mut state, row_dto(&doomed.id, "{\"y\":2}")).unwrap();
    add_dataset_data(&mut state, row_dto(&keep.id, "{\"x\":1}")).unwrap();

    delete_dataset(&mut state, doomed.id.clone()).unwrap();
    assert!(matches!(get_dataset_by_id(&state, doomed.id.clone()), Err(DbError::NotFound)));
    // The cascade removed exactly the deleted dataset's rows.
    assert_eq!(state.dataset_rows.len(), 1);
    let survivor = get_dataset_by_id(&state, keep.id.clone()).unwrap();
    assert_eq!(survivor.datos, vec!["{\"x\":1}".to_string()]);

    let again = delete_dataset(&mut state, doomed.id);
    assert!(matches!(again, Err(DbError::NotFound)));
}

#[test]
fn bound_panel_survives_dataset_deletion_with_data_absent() {
    let mut state = AppState::new();
    let owner = register_user(
        &mut state,
        CreateUserDto {
            username: "ana".to_string(),
            email: "ana@example.com".to_string(),
            password: "secreta123".to_string(),
        },
    )
    .unwrap()
    .user
    .id;
    let board = create_board(
        &mut state,
        owner.clone(),
        CreateBoardDto {
            title: "Ventas".to_string(),
            description: "".to_string(),
            icon: "grid".to_string(),
            color: "#fff".to_string(),
        },
    )
    .unwrap();
    let ds = create_dataset(&mut state, dataset_dto("ventas", &["mes", "total"])).unwrap();
    add_dataset_data(&mut state, row_dto(&ds.id, "{\"mes\":\"enero\",\"total\":10}")).unwrap();

    let panel = create_panel(
        &mut state,
        owner.clone(),
        CreatePanelDto {
            board_id: board.id.clone(),
            tipo: "tabla".to_string(),
            titulo: "resumen".to_string(),
            posicion: Position { x: 0, y: 0 },
            tamano: Size { width: 100, height: 100 },
            z_index: 1,
            dataset_id: Some(ds.id.clone()),
            config: None,
        },
    )
    .unwrap();
    // While the dataset exists the binding is materialized in full.
    let data = panel.data.as_ref().expect("bound panel carries data");
    assert_eq!(data.nombre, "ventas");
    assert_eq!(data.tipo, "tabla");
    assert_eq!(data.columnas, vec!["mes".to_string(), "total".to_string()]);
    assert_eq!(data.datos, vec!["{\"mes\":\"enero\",\"total\":10}".to_string()]);

    delete_dataset(&mut state, ds.id.clone()).unwrap();

    // The panel still appears in the listing; only its data is absent.
    let boards = get_my_boards(&state, owner).unwrap();
    assert_eq!(boards.len(), 1);
    assert_eq!(boards[0].panels.len(), 1);
    let survivor = &boards[0].panels[0];
    assert_eq!(survivor.id, panel.id);
    assert_eq!(survivor.dataset_id, Some(ds.id));
    assert!(survivor.data.is_none());
}
