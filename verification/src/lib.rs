//! Revision-tracked storage of one user's folder tree: workspaces, their
//! apps, the apps' views, and a trash of soft-deleted items.

pub mod codec;
pub mod controller;
pub mod database;
pub mod drawn;
pub mod editor;
pub mod entities;
pub mod errors;
pub mod folder_model;
pub mod folder_pad;
pub mod init_flags;
pub mod laws;
pub mod layout;
pub mod migration;
pub mod persistence;
pub mod revision;
pub mod store_layout;

pub use controller::{
    create_default_workspace, seed_for, AppController, DefaultFolderBuilder, DocumentSeed,
    FolderManager, Notification, ViewController, ViewDocument, WorkspaceNotification,
};
pub use database::{LegacyStore, WorkspaceDatabase, WorkspaceUser};
pub use drawn::{identifier_from, new_identifier, now_timestamp};
pub use editor::{replay_records, FolderEditor};
pub use entities::{
    App, AppChangeset, FolderNode, Trash, TrashType, ViewChangeset, ViewInfo, Workspace,
    WorkspaceChangeset,
};
pub use errors::{FlowyError, FlowyResult};
pub use folder_pad::FolderPad;
pub use init_flags::InitFlags;
pub use migration::FolderMigration;
pub use persistence::{FolderPersistence, FolderPersistenceTransaction, FOLDER_ID};
pub use revision::{md5, to_hex, Revision, RevisionRecord, RevisionState};
