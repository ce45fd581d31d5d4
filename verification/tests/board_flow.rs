use boardstore::auth::register_user;
use boardstore::board::create_board;
use boardstore::board::create_panel;
use boardstore::board::get_board_by_id;
use boardstore::board::get_my_boards;
use boardstore::board::get_panel_with_data;
use boardstore::models::CreateBoardDto;
use boardstore::models::CreatePanelDto;
use boardstore::models::CreateUserDto;
use boardstore::models::DbError;
use boardstore::models::Position;
use boardstore::models::Size;
use boardstore::store::AppState;

fn register(state: &mut AppState, name: &str) -> String {
    let auth = register_user(
        state,
        CreateUserDto {
            username: name.to_string(),
            email: format!("{}@example.com", name),
            password: "secreta123".to_string(),
        },
    )
    .unwrap();
    auth.user.id
}

fn board_dto(title: &str) -> CreateBoardDto {
    CreateBoardDto {
        title: title.to_string(),
        description: "panel de control".to_string(),
        icon: "grid".to_string(),
        color: "#3366ff".to_string(),
    }
}

fn panel_dto(board_id: &str, titulo: &str, z_index: i32) -> CreatePanelDto {
    CreatePanelDto {
        board_id: board_id.to_string(),
        tipo: "grafico".to_string(),
        titulo: titulo.to_string(),
        posicion: Position { x: 1, y: 2 },
        tamano: Size { width: 300, height: 200 },
        z_index,
        dataset_id: None,
        config: None,
    }
}

#[test]
fn board_is_visible_to_owner_and_absent_for_others() {
    let mut state = AppState::new();
    let owner = register(&mut state, "ana");
    let other = register(&mut state, "bea");

    let board = create_board(&mut state, owner.clone(), board_dto("Ventas")).unwrap();
    assert_eq!(board.title, "Ventas");
    assert_eq!(board.user_id, owner);
    assert!(board.panels.is_empty());

    let mine = get_board_by_id(&state, board.id.clone(), owner.clone()).unwrap();
    assert_eq!(mine.id, board.id);
    assert_eq!(mine.title, "Ventas");
    assert_eq!(mine.description, "panel de control");
    assert_eq!(mine.icon, "grid");
    assert_eq!(mine.color, "#3366ff");

    let foreign = get_board_by_id(&state, board.id.clone(), other);
    assert!(matches!(foreign, Err(DbError::NotFound)));

    let missing = get_board_by_id(&state, "no-such-board".to_string(), owner);
    assert!(matches!(missing, Err(DbError::NotFound)));
}

#[test]
fn boards_list_newest_first() {
    let mut state = AppState::new();
    let owner = register(&mut state, "ana");
    let other = register(&mut state, "bea");
    let first = create_board(&mut state, owner.clone(), board_dto("Primero")).unwrap();
    let second = create_board(&mut state, owner.clone(), board_dto("Segundo")).unwrap();
    create_board(&mut state, other.clone(), board_dto("Ajeno")).unwrap();

    let boards = get_my_boards(&state, owner).unwrap();
    assert_eq!(boards.len(), 2);
    assert_eq!(boards[0].id, second.id);
    assert_eq!(boards[1].id, first.id);
}

#[test]
fn panels_come_back_ordered_by_stacking_index() {
    let mut state = AppState::new();
    let owner = register(&mut state, "ana");
    let board = create_board(&mut state, owner.clone(), board_dto("Ventas")).unwrap();

    create_panel(&mut state, owner.clone(), panel_dto(&board.id, "tres", 3)).unwrap();
    create_panel(&mut state, owner.clone(), panel_dto(&board.id, "uno", 1)).unwrap();
    create_panel(&mut state, owner.clone(), panel_dto(&board.id, "dos", 2)).unwrap();

    let fetched = get_board_by_id(&state, board.id.clone(), owner).unwrap();
    let zs: Vec<i32> = fetched.panels.iter().map(|p| p.z_index).collect();
    assert_eq!(zs, vec![1, 2, 3]);
    let titles: Vec<&str> = fetched.panels.iter().map(|p| p.titulo.as_str()).collect();
    assert_eq!(titles, vec!["uno", "dos", "tres"]);
}

#[test]
fn equal_stacking_indices_keep_creation_order() {
    let mut state = AppState::new();
    let owner = register(&mut state, "ana");
    let board = create_board(&mut state, owner.clone(), board_dto("Ventas")).unwrap();

    create_panel(&mut state, owner.clone(), panel_dto(&board.id, "primero", 5)).unwrap();
    create_panel(&mut state, owner.clone(), panel_dto(&board.id, "segundo", 5)).unwrap();
    create_panel(&mut state, owner.clone(), panel_dto(&board.id, "alto", 9)).unwrap();
    create_panel(&mut state, owner.clone(), panel_dto(&board.id, "tercero", 5)).unwrap();

    let fetched = get_board_by_id(&state, board.id.clone(), owner).unwrap();
    let titles: Vec<&str> = fetched.panels.iter().map(|p| p.titulo.as_str()).collect();
    assert_eq!(titles, vec!["primero", "segundo", "tercero", "alto"]);
}

#[test]
fn create_panel_on_foreign_board_is_unauthorized_not_notfound() {
    let mut state = AppState::new();
    let owner = register(&mut state, "ana");
    let intruder = register(&mut state, "bea");
    let board = create_board(&mut state, owner, board_dto("Ventas")).unwrap();

    // The board exists, yet the caller does not own it: Unauthorized.
    let denied = create_panel(&mut state, intruder.clone(), panel_dto(&board.id, "ajeno", 1));
    assert!(matches!(denied, Err(DbError::Unauthorized)));

    // A board that does not exist at all answers the same way here.
    let missing = create_panel(&mut state, intruder, panel_dto("no-such-board", "nada", 1));
    assert!(matches!(missing, Err(DbError::Unauthorized)));

    assert!(state.panels.is_empty());
}

#[test]
fn new_panel_decodes_flat_columns_and_defaults() {
    let mut state = AppState::new();
    let owner = register(&mut state, "ana");
    let board = create_board(&mut state, owner.clone(), board_dto("Ventas")).unwrap();

    let panel = create_panel(&mut state, owner, panel_dto(&board.id, "ingresos", 7)).unwrap();
    assert_eq!(panel.board_id, board.id);
    assert_eq!(panel.tipo, "grafico");
    assert_eq!(panel.titulo, "ingresos");
    assert_eq!(panel.posicion, Position { x: 1, y: 2 });
    assert_eq!(panel.tamano, Size { width: 300, height: 200 });
    assert_eq!(panel.z_index, 7);
    // Panels are inserted inactive, and an omitted configuration defaults to
    // the empty JSON object.
    assert!(!panel.activo);
    assert_eq!(panel.config, "{}");
    assert!(panel.dataset_id.is_none());
    assert!(panel.data.is_none());
}

#[test]
fn panel_config_text_is_kept_when_valid_and_degrades_when_not() {
    let mut state = AppState::new();
    let owner = register(&mut state, "ana");
    let board = create_board(&mut state, owner.clone(), board_dto("Ventas")).unwrap();

    let mut with_config = panel_dto(&board.id, "configurado", 1);
    with_config.config = Some("{\"refresh\":30}".to_string());
    let panel = create_panel(&mut state, owner.clone(), with_config).unwrap();
    assert_eq!(panel.config, "{\"refresh\":30}");

    let mut broken = panel_dto(&board.id, "roto", 2);
    broken.config = Some("{esto no es json".to_string());
    let created = create_panel(&mut state, owner.clone(), broken).unwrap();
    // The stored text does not decode, so the assembled panel degrades to the
    // empty object instead of failing.
    assert_eq!(created.config, "{}");

    let refetched = get_panel_with_data(&state, &created.id).unwrap();
    assert_eq!(refetched.config, "{}");
    assert_eq!(refetched.titulo, "roto");
}

#[test]
fn get_panel_with_data_missing_panel_is_notfound() {
    let state = AppState::new();
    let missing = get_panel_with_data(&state, &"no-such-panel".to_string());
    assert!(matches!(missing, Err(DbError::NotFound)));
}
