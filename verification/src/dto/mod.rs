//! Data transfer objects.
//!
//! These are the wire shapes, deliberately separate from the domain models. Keeping them apart means a
//! column rename is a repository change rather than a breaking API change. The field names are the
//! Rust ones; the application gives them the `camelCase` keys the frontend expects when it serialises.

pub mod auth_dto;
pub mod bookmark_dto;
pub mod device_dto;
pub mod session_dto;
pub mod settings_dto;
pub mod status_dto;
pub mod timeline_dto;
pub mod update_dto;

pub use auth_dto::{
    AuthStateResponse, ChangePasswordRequest, CodeRequest, ConfirmPasswordRequest, CreateUserRequest,
    CredentialsRequest, RecoveryCodesResponse, SetPasswordRequest, TwoFactorSetupResponse,
    TwoFactorStatusResponse, UpdateUserRequest, UserDto, UserListResponse,
};
pub use bookmark_dto::{BookmarkDto, BookmarkListResponse, CreateBookmarkRequest, UpdateBookmarkRequest};
pub use device_dto::{DeviceDto, DeviceListResponse, SelectDeviceRequest};
pub use session_dto::{SessionDto, SessionListResponse, StorageContext, StorageResponse};
pub use settings_dto::{TestDirectoryRequest, TestDirectoryResponse};
pub use status_dto::{CaptureDto, HealthResponse};
pub use timeline_dto::{CoverageDto, PeaksQuery, PeaksResponse, TimelineRangeResponse};
pub use update_dto::{InstallDto, ReleaseDto, UpdateStatusResponse};
