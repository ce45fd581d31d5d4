//! Domain types of the dashboard persistence layer: users, boards, panels,
//! shared datasets, their flat storage records, and the error taxonomy.

use vstd::prelude::*;

verus! {

/// Placement of a panel on its board, in canvas coordinates.
#[derive(Debug, Clone, Copy, PartialEq, Eq, Structural)]
pub struct Position {
    pub x: i32,
    pub y: i32,
}

/// Extent of a panel on its board.
#[derive(Debug, Clone, Copy, PartialEq, Eq, Structural)]
pub struct Size {
    pub width: i32,
    pub height: i32,
}

/// A registered account. `password` holds the bcrypt hash of the credential,
/// never the plain text; callers that serialize a `User` outward must skip it.
#[derive(Debug, Clone)]
pub struct User {
    pub id: String,
    pub username: String,
    pub email: String,
    pub password: String,
    pub created_at: String,
    pub updated_at: String,
}

/// Input of `register_user`.
#[derive(Debug, Clone)]
pub struct CreateUserDto {
    pub username: String,
    pub email: String,
    pub password: String,
}

/// Input of `login_user`.
#[derive(Debug, Clone)]
pub struct LoginDto {
    pub username: String,
    pub password: String,
}

/// A freshly authenticated user paired with a new opaque session token.
#[derive(Debug, Clone)]
pub struct AuthResponse {
    pub user: User,
    pub token: String,
}

/// The materialized content of a dataset as carried inside a panel:
/// the dataset's display data, resolved at assembly time and never persisted.
/// `datos` holds the dataset's stored row payloads (JSON text), newest first.
#[derive(Debug, Clone)]
pub struct PanelData {
    pub nombre: String,
    pub tipo: String,
    pub columnas: Vec<String>,
    pub datos: Vec<String>,
}

/// A fully assembled panel as exposed to callers: nested position and size,
/// decoded configuration, and the optional materialized dataset payload.
#[derive(Debug, Clone)]
pub struct Panel {
    pub id: String,
    pub board_id: String,
    pub tipo: String,
    pub titulo: String,
    pub posicion: Position,
    pub tamano: Size,
    pub z_index: i32,
    pub activo: bool,
    pub dataset_id: Option<String>,
    pub config: String,
    pub data: Option<PanelData>,
    pub created_at: String,
    pub updated_at: String,
}

/// The flat storage record of a panel: position and size as plain columns,
/// the active flag as an integer, and the configuration as JSON text.
#[derive(Debug, Clone)]
pub struct PanelDb {
    pub id: String,
    pub board_id: String,
    pub tipo: String,
    pub titulo: String,
    pub posicion_x: i32,
    pub posicion_y: i32,
    pub ancho: i32,
    pub alto: i32,
    pub z_index: i32,
    pub activo: i32,
    pub dataset_id: Option<String>,
    pub config: String,
    pub created_at: String,
    pub updated_at: String,
}

/// A fully assembled board: its own fields plus the ordered panel list,
/// populated only at read time.
#[derive(Debug, Clone)]
pub struct Board {
    pub id: String,
    pub user_id: String,
    pub title: String,
    pub description: String,
    pub icon: String,
    pub color: String,
    pub created_at: String,
    pub updated_at: String,
    pub panels: Vec<Panel>,
}

/// The flat storage record of a board.
#[derive(Debug, Clone)]
pub struct BoardDb {
    pub id: String,
    pub user_id: String,
    pub title: String,
    pub description: String,
    pub icon: String,
    pub color: String,
    pub created_at: String,
    pub updated_at: String,
}

/// Input of `create_board`.
#[derive(Debug, Clone)]
pub struct CreateBoardDto {
    pub title: String,
    pub description: String,
    pub icon: String,
    pub color: String,
}

/// Input of `create_panel`. `config`, when present, is the panel's
/// free-form configuration as JSON text; it defaults to an empty object.
#[derive(Debug, Clone)]
pub struct CreatePanelDto {
    pub board_id: String,
    pub tipo: String,
    pub titulo: String,
    pub posicion: Position,
    pub tamano: Size,
    pub z_index: i32,
    pub dataset_id: Option<String>,
    pub config: Option<String>,
}

/// Partial update of a panel; a field left `None` is not touched.
#[derive(Debug, Clone)]
pub struct UpdatePanelDto {
    pub titulo: Option<String>,
    pub posicion: Option<Position>,
    pub tamano: Option<Size>,
    pub z_index: Option<i32>,
    pub activo: Option<bool>,
    pub dataset_id: Option<String>,
    pub config: Option<String>,
}

/// A globally shared dataset as exposed to callers, with its declared
/// column names decoded and its row payloads materialized newest first.
#[derive(Debug, Clone)]
pub struct GlobalDataset {
    pub id: String,
    pub nombre: String,
    pub tipo: String,
    pub columnas: Vec<String>,
    pub created_at: String,
    pub updated_at: String,
    pub datos: Vec<String>,
}

/// The flat storage record of a dataset: the column list is kept as JSON text.
#[derive(Debug, Clone)]
pub struct GlobalDatasetDb {
    pub id: String,
    pub nombre: String,
    pub tipo: String,
    pub columnas: String,
    pub created_at: String,
    pub updated_at: String,
}

/// One append-only data row of a dataset; `data` is an opaque JSON payload.
#[derive(Debug, Clone)]
pub struct DatasetData {
    pub id: String,
    pub dataset_id: String,
    pub data: String,
    pub created_at: String,
}

/// Input of `create_dataset`.
#[derive(Debug, Clone)]
pub struct CreateDatasetDto {
    pub nombre: String,
    pub tipo: String,
    pub columnas: Vec<String>,
}

/// Input of `add_dataset_data`; `data` is the row payload as JSON text.
#[derive(Debug, Clone)]
pub struct AddDatasetDataDto {
    pub dataset_id: String,
    pub data: String,
}

/// The error taxonomy of every command.
#[derive(Debug, Clone, PartialEq, Eq)]
pub enum DbError {
    /// An unexpected persistence failure, surfaced with its message.
    Store(String),
    /// The referenced entity is absent, or, for ownership-scoped reads,
    /// present but not owned by the caller.
    NotFound,
    /// Malformed input JSON or a persistence-constraint violation.
    InvalidData(String),
    /// Credential mismatch at login, or an ownership violation at panel creation.
    Unauthorized,
}

pub type DbResult<T> = Result<T, DbError>;

impl User {
    /// A field-by-field copy whose equality to the original is known to the verifier.
    pub fn duplicate(&self) -> (r: User)
        ensures
            r == *self,
    {
        User {
            id: self.id.clone(),
            username: self.username.clone(),
            email: self.email.clone(),
            password: self.password.clone(),
            created_at: self.created_at.clone(),
            updated_at: self.updated_at.clone(),
        }
    }
}

impl BoardDb {
    /// A field-by-field copy whose equality to the original is known to the verifier.
    pub fn duplicate(&self) -> (r: BoardDb)
        ensures
            r == *self,
    {
        BoardDb {
            id: self.id.clone(),
            user_id: self.user_id.clone(),
            title: self.title.clone(),
            description: self.description.clone(),
            icon: self.icon.clone(),
            color: self.color.clone(),
            created_at: self.created_at.clone(),
            updated_at: self.updated_at.clone(),
        }
    }
}

/// A copy of an optional string whose equality to the original is known
/// to the verifier.
pub fn duplicate_opt_string(o: &Option<String>) -> (r: Option<String>)
    ensures
        r == *o,
{
    match o {
        Some(s) => Some(s.clone()),
        None => None,
    }
}

impl PanelDb {
    /// A field-by-field copy whose equality to the original is known to the verifier.
    pub fn duplicate(&self) -> (r: PanelDb)
        ensures
            r == *self,
    {
        PanelDb {
            id: self.id.clone(),
            board_id: self.board_id.clone(),
            tipo: self.tipo.clone(),
            titulo: self.titulo.clone(),
            posicion_x: self.posicion_x,
            posicion_y: self.posicion_y,
            ancho: self.ancho,
            alto: self.alto,
            z_index: self.z_index,
            activo: self.activo,
            dataset_id: duplicate_opt_string(&self.dataset_id),
            config: self.config.clone(),
            created_at: self.created_at.clone(),
            updated_at: self.updated_at.clone(),
        }
    }
}

impl GlobalDatasetDb {
    /// A field-by-field copy whose equality to the original is known to the verifier.
    pub fn duplicate(&self) -> (r: GlobalDatasetDb)
        ensures
            r == *self,
    {
        GlobalDatasetDb {
            id: self.id.clone(),
            nombre: self.nombre.clone(),
            tipo: self.tipo.clone(),
            columnas: self.columnas.clone(),
            created_at: self.created_at.clone(),
            updated_at: self.updated_at.clone(),
        }
    }
}

impl DatasetData {
    /// A field-by-field copy whose equality to the original is known to the verifier.
    pub fn duplicate(&self) -> (r: DatasetData)
        ensures
            r == *self,
    {
        DatasetData {
            id: self.id.clone(),
            dataset_id: self.dataset_id.clone(),
            data: self.data.clone(),
            created_at: self.created_at.clone(),
        }
    }
}

} // verus!
