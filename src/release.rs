use vstd::prelude::*;

verus! {

/// A published release of the service.
#[derive(Clone, Debug, PartialEq, Eq)]
pub struct Release {
    /// The tag name of the release (e.g. "v1.2.3").
    pub tag_name: String,
    pub published_at: String,
    /// Release notes, typically Markdown.
    pub body: String,
    pub html_url: String,
}

/// What a release check found.
#[derive(Clone, Debug, PartialEq, Eq)]
pub struct ReleaseNotification {
    pub latest: Option<Release>,
    /// The latest release differs from the running version.
    pub is_newer: bool,
    /// Why the check failed, if it did.
    pub error_message: Option<String>,
}

/// Notifications shown to an operator.
#[derive(Clone, Debug, PartialEq, Eq)]
pub struct Notifications {
    pub release: ReleaseNotification,
}

impl ReleaseNotification {
    /// The notification for a fetched latest release: newer exactly when its
    /// tag differs from `current_version`.
    pub fn from_release(release: Release, current_version: &str) -> (r: Self)
        ensures
            r.latest == Some(release),
            r.is_newer == (release.tag_name@ != current_version@),
            r.error_message is None,
    {
        let is_newer = !string_eq_str(&release.tag_name, current_version);
        ReleaseNotification { latest: Some(release), is_newer, error_message: None }
    }

    /// The notification for a failed check.
    pub fn failed(error_message: String) -> (r: Self)
        ensures
            r.latest is None,
            !r.is_newer,
            r.error_message == Some(error_message),
    {
        ReleaseNotification { latest: None, is_newer: false, error_message: Some(error_message) }
    }
}

/// Whether `a` and `b` hold the same characters.
fn string_eq_str(a: &String, b: &str) -> (r: bool)
    ensures
        r == (a@ == b@),
{
    let b_owned = b.to_owned();
    *a == b_owned
}

} // verus!
