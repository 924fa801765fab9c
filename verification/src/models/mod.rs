//! The records and messages of call screening.

pub mod call;
pub mod state;
pub mod user;
pub mod voice;

pub use call::{
    Call, CallResponse, CallResponseView, CallRouteAction, CallRouteRequest, CallStartRequest,
    CallStatus, CallView, Callback, CallbackRequest, CallbackStatus, CallbackView,
};
pub use state::{callbacks_refer, AppState};
pub use user::{AuthRequest, AuthResponse, Claims, NotificationPreferences, User, UserSettings};
pub use voice::{
    ActionRecommendation, IntentAnalysisRequest, IntentAnalysisResponse,
    IntentAnalysisResponseView, TranscriptRequest, TranscriptResponse, VoiceStreamRequest,
};
