//! The MFA settings dialog as a state machine. The caller performs the actions it returns
//! (saving the secret on the server) and reports back what came of them as events.
use crate::provisioning::{generate_qr_code, provisioning_uri_text, qr_svg, svg_data_uri_text};
use crate::secret::base32_decoded;
use crate::totp::{code_accepted, verify_totp_code};
use vstd::prelude::*;

verus! {

/// Where the dialog stands.
pub enum MfaPage {
    /// No dialog; nothing is held.
    Hidden,
    /// The secret and its QR code are shown, waiting for a code from the user.
    Setup { secret: String, qr_code: String },
    /// A code was accepted; the secret is being saved on the server.
    Saving { secret: String },
}

/// What the user, or the server, did.
pub enum MfaEvent {
    /// The server reported whether MFA is enabled for the user.
    StatusLoaded { enabled: bool },
    /// The user asked to set MFA up; `secret` is a freshly generated Base32 secret.
    SetupRequested { secret: String, email: String, issuer: String },
    /// The user closed the dialog.
    Closed,
    /// The user submitted a one-time code at time `now` (seconds since the epoch).
    CodeSubmitted { code: String, now: u64 },
    /// The server answered the request to save the secret.
    SaveFinished { saved: bool },
}

/// What the caller must do next.
pub enum MfaAction {
    Nothing,
    /// Save this secret for the user on the server, then report `SaveFinished`.
    SaveSecret { secret: String },
    /// The QR code could not be built; the setup was abandoned.
    QrCodeFailed,
    /// The submitted code was wrong; the secret was discarded.
    CodeRejected,
    /// The server did not save the secret; it was discarded.
    SaveFailed,
}

/// The MFA settings of the signed-in user, as the dialog sees them.
pub struct MfaSettings {
    pub page: MfaPage,
    pub enabled: bool,
}

pub enum PageView {
    Hidden,
    Setup { secret: Seq<char>, qr_code: Seq<char> },
    Saving { secret: Seq<char> },
}

pub enum EventView {
    StatusLoaded { enabled: bool },
    SetupRequested { secret: Seq<char>, email: Seq<char>, issuer: Seq<char> },
    Closed,
    CodeSubmitted { code: Seq<char>, now: u64 },
    SaveFinished { saved: bool },
}

pub enum ActionView {
    Nothing,
    SaveSecret { secret: Seq<char> },
    QrCodeFailed,
    CodeRejected,
    SaveFailed,
}

pub struct SettingsView {
    pub page: PageView,
    pub enabled: bool,
}

impl View for MfaPage {
    type V = PageView;

    open spec fn view(&self) -> PageView {
        match self {
            MfaPage::Hidden => PageView::Hidden,
            MfaPage::Setup { secret, qr_code } => PageView::Setup {
                secret: secret@,
                qr_code: qr_code@,
            },
            MfaPage::Saving { secret } => PageView::Saving { secret: secret@ },
        }
    }
}

impl View for MfaEvent {
    type V = EventView;

    open spec fn view(&self) -> EventView {
        match self {
            MfaEvent::StatusLoaded { enabled } => EventView::StatusLoaded { enabled: *enabled },
            MfaEvent::SetupRequested { secret, email, issuer } => EventView::SetupRequested {
                secret: secret@,
                email: email@,
                issuer: issuer@,
            },
            MfaEvent::Closed => EventView::Closed,
            MfaEvent::CodeSubmitted { code, now } => EventView::CodeSubmitted {
                code: code@,
                now: *now,
            },
            MfaEvent::SaveFinished { saved } => EventView::SaveFinished { saved: *saved },
        }
    }
}

impl View for MfaAction {
    type V = ActionView;

    open spec fn view(&self) -> ActionView {
        match self {
            MfaAction::Nothing => ActionView::Nothing,
            MfaAction::SaveSecret { secret } => ActionView::SaveSecret { secret: secret@ },
            MfaAction::QrCodeFailed => ActionView::QrCodeFailed,
            MfaAction::CodeRejected => ActionView::CodeRejected,
            MfaAction::SaveFailed => ActionView::SaveFailed,
        }
    }
}

impl View for MfaSettings {
    type V = SettingsView;

    open spec fn view(&self) -> SettingsView {
        SettingsView { page: self.page@, enabled: self.enabled }
    }
}

/// Whether a submitted code is accepted for a Base32 secret.
pub open spec fn secret_accepts(secret: Seq<char>, code: Seq<char>, now: u64) -> bool {
    match base32_decoded(secret) {
        Some(key) => code_accepted(key, code, now),
        None => false,
    }
}

/// The next state of the dialog, and the action for the caller.
pub open spec fn mfa_next(s: SettingsView, e: EventView) -> (SettingsView, ActionView) {
    match e {
        EventView::StatusLoaded { enabled } => (
            SettingsView { page: s.page, enabled },
            ActionView::Nothing,
        ),
        EventView::SetupRequested { secret, email, issuer } => {
            if s.page is Saving {
                (s, ActionView::Nothing)
            } else {
                match qr_svg(provisioning_uri_text(secret, email, issuer)) {
                    Some(svg) => (
                        SettingsView {
                            page: PageView::Setup { secret, qr_code: svg_data_uri_text(svg) },
                            enabled: s.enabled,
                        },
                        ActionView::Nothing,
                    ),
                    None => (
                        SettingsView { page: PageView::Hidden, enabled: s.enabled },
                        ActionView::QrCodeFailed,
                    ),
                }
            }
        },
        EventView::Closed => {
            if s.page is Setup {
                (SettingsView { page: PageView::Hidden, enabled: s.enabled }, ActionView::Nothing)
            } else {
                (s, ActionView::Nothing)
            }
        },
        EventView::CodeSubmitted { code, now } => match s.page {
            PageView::Setup { secret, .. } => {
                if secret_accepts(secret, code, now) {
                    (
                        SettingsView { page: PageView::Saving { secret }, enabled: s.enabled },
                        ActionView::SaveSecret { secret },
                    )
                } else {
                    (
                        SettingsView { page: PageView::Hidden, enabled: s.enabled },
                        ActionView::CodeRejected,
                    )
                }
            },
            _ => (s, ActionView::Nothing),
        },
        EventView::SaveFinished { saved } => {
            if s.page is Saving {
                if saved {
                    (SettingsView { page: PageView::Hidden, enabled: true }, ActionView::Nothing)
                } else {
                    (
                        SettingsView { page: PageView::Hidden, enabled: s.enabled },
                        ActionView::SaveFailed,
                    )
                }
            } else {
                (s, ActionView::Nothing)
            }
        },
    }
}

impl MfaSettings {
    /// No dialog, and MFA not known to be enabled.
    pub fn new() -> (r: MfaSettings)
        ensures
            r@ == (SettingsView { page: PageView::Hidden, enabled: false }),
    {
        MfaSettings { page: MfaPage::Hidden, enabled: false }
    }

    /// Applies one event and returns the action the caller must perform.
    pub fn handle(&mut self, event: MfaEvent) -> (r: MfaAction)
        ensures
            (final(self)@, r@) == mfa_next(old(self)@, event@),
    {
        match event {
            MfaEvent::StatusLoaded { enabled } => {
                self.enabled = enabled;
                MfaAction::Nothing
            },
            MfaEvent::SetupRequested { secret, email, issuer } => {
                if matches!(self.page, MfaPage::Saving { .. }) {
                    return MfaAction::Nothing;
                }
                match generate_qr_code(email.as_str(), issuer.as_str(), secret.clone()) {
                    Ok(qr_code) => {
                        self.page = MfaPage::Setup { secret, qr_code };
                        MfaAction::Nothing
                    },
                    Err(_) => {
                        self.page = MfaPage::Hidden;
                        MfaAction::QrCodeFailed
                    },
                }
            },
            MfaEvent::Closed => {
                if matches!(self.page, MfaPage::Setup { .. }) {
                    self.page = MfaPage::Hidden;
                }
                MfaAction::Nothing
            },
            MfaEvent::CodeSubmitted { code, now } => {
                let accepted = match &self.page {
                    MfaPage::Setup { secret, .. } => Some(
                        verify_totp_code(secret.as_str(), code.as_str(), now),
                    ),
                    _ => None,
                };
                match accepted {
                    Some(true) => {
                        let secret = match &self.page {
                            MfaPage::Setup { secret, .. } => secret.clone(),
                            _ => String::new(),
                        };
                        let saved = secret.clone();
                        self.page = MfaPage::Saving { secret };
                        MfaAction::SaveSecret { secret: saved }
                    },
                    Some(false) => {
                        self.page = MfaPage::Hidden;
                        MfaAction::CodeRejected
                    },
                    None => MfaAction::Nothing,
                }
            },
            MfaEvent::SaveFinished { saved } => {
                if matches!(self.page, MfaPage::Saving { .. }) {
                    self.page = MfaPage::Hidden;
                    if saved {
                        self.enabled = true;
                        MfaAction::Nothing
                    } else {
                        MfaAction::SaveFailed
                    }
                } else {
                    MfaAction::Nothing
                }
            },
        }
    }
}

/// The enrollment flow: from the setup dialog a correct code asks the caller to save the very
/// secret that was shown, and the dialog is hidden only once the save is reported (with MFA
/// enabled when it succeeded); a wrong code hides the dialog and asks for no save.
pub proof fn lemma_enrollment_flow(
    s: SettingsView,
    code: Seq<char>,
    now: u64,
    e: EventView,
)
    requires
        s.page is Setup,
    ensures
        ({
            let secret = s.page->Setup_secret;
            let (s1, a1) = mfa_next(s, EventView::CodeSubmitted { code, now });
            &&& secret_accepts(secret, code, now) ==> {
                &&& s1.page == PageView::Saving { secret }
                &&& a1 == ActionView::SaveSecret { secret }
                &&& mfa_next(s1, e).0.page is Hidden ==> e is SaveFinished
                &&& mfa_next(s1, EventView::SaveFinished { saved: true }).0 == (SettingsView {
                    page: PageView::Hidden,
                    enabled: true,
                })
            }
            &&& !secret_accepts(secret, code, now) ==> {
                &&& s1.page is Hidden
                &&& !(a1 is SaveSecret)
            }
        }),
{
}

} // verus!
