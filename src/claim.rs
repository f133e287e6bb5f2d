//! The chain of remote calls that turns a claim token into a saved view:
//! claim the capability, read its view info, resolve its icon, save it, and
//! store the token that the save returns. Each call's outcome is an event;
//! the chain answers with the next call to make.
use vstd::prelude::*;
use vstd::string::StringExecFns;
use crate::encoding::url_safe_base64;
use crate::store::token_for;

verus! {

/// The label that saved capabilities carry.
pub const SAVE_LABEL: &'static str = "[save label chosen by collections app]";

#[derive(Clone, Copy, Debug, PartialEq, Eq, Structural)]
pub enum IconProtocol {
    Http,
    Https,
}

pub open spec fn scheme(p: IconProtocol) -> Seq<char> {
    match p {
        IconProtocol::Http => "http"@,
        IconProtocol::Https => "https"@,
    }
}

/// The URL of an icon served at `host_path` over `protocol`.
pub fn icon_url(protocol: IconProtocol, host_path: &str) -> (r: String)
    ensures
        r@ == scheme(protocol) + "://"@ + host_path@,
{
    let mut r = match protocol {
        IconProtocol::Http => String::from_str("http"),
        IconProtocol::Https => String::from_str("https"),
    };
    r.append("://");
    r.append(host_path);
    r
}

#[derive(Clone, Copy, Debug, PartialEq, Eq, Structural)]
pub enum ClaimStep {
    Claiming,
    FetchingViewInfo,
    ResolvingIcon,
    Saving,
    Done,
    Failed,
}

/// The outcome of the call the chain is waiting on.
pub enum ClaimEvent {
    /// The claim returned a capability.
    Claimed,
    /// The capability's view info arrived.
    ViewInfo,
    /// The icon resolved to a protocol and a host path.
    IconResolved { protocol: IconProtocol, host_path: String },
    /// The save returned these token bytes.
    Saved { token: Vec<u8> },
    /// The call failed; `description` says why.
    CallFailed { description: String },
}

/// What to do next.
pub enum ClaimAction {
    RequestViewInfo,
    RequestIconUrl,
    /// Save the capability under `SAVE_LABEL`.
    RequestSave,
    /// Store the saved view and answer the request with success.
    Store { token: String, title: String, added_by: String },
    /// Answer the request with a client error carrying `description`.
    Fail { description: String },
}

/// The step that follows `s` on a successful outcome of its call.
pub open spec fn next_step(s: ClaimStep) -> ClaimStep {
    match s {
        ClaimStep::Claiming => ClaimStep::FetchingViewInfo,
        ClaimStep::FetchingViewInfo => ClaimStep::ResolvingIcon,
        ClaimStep::ResolvingIcon => ClaimStep::Saving,
        ClaimStep::Saving => ClaimStep::Done,
        _ => ClaimStep::Failed,
    }
}

/// Whether `e` is the successful outcome that step `s` waits for.
pub open spec fn expected(s: ClaimStep, e: ClaimEvent) -> bool {
    match (s, e) {
        (ClaimStep::Claiming, ClaimEvent::Claimed) => true,
        (ClaimStep::FetchingViewInfo, ClaimEvent::ViewInfo) => true,
        (ClaimStep::ResolvingIcon, ClaimEvent::IconResolved { .. }) => true,
        (ClaimStep::Saving, ClaimEvent::Saved { .. }) => true,
        _ => false,
    }
}

/// One claim in progress, for a view titled `title`, made by `added_by`.
pub struct ClaimChain {
    pub step: ClaimStep,
    pub title: String,
    pub added_by: String,
    /// The icon's URL, once resolved.
    pub icon_url: Option<String>,
}

impl ClaimChain {
    /// A chain whose claim request is to be sent now.
    pub fn new(title: String, added_by: String) -> (r: ClaimChain)
        ensures
            r.step == ClaimStep::Claiming,
            r.title@ == title@,
            r.added_by@ == added_by@,
            r.icon_url is None,
    {
        ClaimChain { step: ClaimStep::Claiming, title, added_by, icon_url: None }
    }

    /// Takes the outcome of the pending call. A success moves to the next
    /// call; a failure, or an outcome the step does not wait for, ends the
    /// chain with an error. The last success asks to store the token.
    pub fn advance(&mut self, event: ClaimEvent) -> (r: ClaimAction)
        ensures
            final(self).title == old(self).title,
            final(self).added_by == old(self).added_by,
            expected(old(self).step, event) ==> final(self).step == next_step(old(self).step),
            !expected(old(self).step, event) ==> final(self).step == ClaimStep::Failed,
            match event {
                ClaimEvent::CallFailed { description } => (r matches ClaimAction::Fail { description: d }
                    && d@ == "error: "@ + description@),
                _ => true,
            },
            expected(old(self).step, event) ==> match event {
                ClaimEvent::Claimed => r is RequestViewInfo,
                ClaimEvent::ViewInfo => r is RequestIconUrl,
                ClaimEvent::IconResolved { protocol, host_path } => r is RequestSave
                    && (final(self).icon_url matches Some(u) && u@ == scheme(protocol) + "://"@ + host_path@),
                ClaimEvent::Saved { token } => (r matches ClaimAction::Store { token: t, title, added_by }
                    && t@ == url_safe_base64(token@) && title@ == old(self).title@ && added_by@ == old(self).added_by@),
                ClaimEvent::CallFailed { .. } => false,
            },
            !expected(old(self).step, event) ==> r is Fail,
    {
        match (self.step, event) {
            (ClaimStep::Claiming, ClaimEvent::Claimed) => {
                self.step = ClaimStep::FetchingViewInfo;
                ClaimAction::RequestViewInfo
            },
            (ClaimStep::FetchingViewInfo, ClaimEvent::ViewInfo) => {
                self.step = ClaimStep::ResolvingIcon;
                ClaimAction::RequestIconUrl
            },
            (ClaimStep::ResolvingIcon, ClaimEvent::IconResolved { protocol, host_path }) => {
                self.step = ClaimStep::Saving;
                self.icon_url = Some(icon_url(protocol, host_path.as_str()));
                ClaimAction::RequestSave
            },
            (ClaimStep::Saving, ClaimEvent::Saved { token }) => {
                self.step = ClaimStep::Done;
                ClaimAction::Store {
                    token: token_for(token.as_slice()),
                    title: self.title.clone(),
                    added_by: self.added_by.clone(),
                }
            },
            (_, ClaimEvent::CallFailed { description }) => {
                self.step = ClaimStep::Failed;
                let mut d = String::from_str("error: ");
                d.append(description.as_str());
                ClaimAction::Fail { description: d }
            },
            (_, _) => {
                self.step = ClaimStep::Failed;
                ClaimAction::Fail { description: String::from_str("error: unexpected reply") }
            },
        }
    }
}

} // verus!
