use vstd::prelude::*;

verus! {

/// The settings kept between runs: the remote store's credentials, the
/// project last chosen and the display preferences.
#[derive(Debug, Clone)]
pub struct ClientConfig {
    pub client_id: String,
    pub client_secret: String,
    pub current_project: Option<String>,
    pub show_finished: Option<bool>,
    pub show_today: Option<bool>,
}

impl ClientConfig {
    /// Settings with empty credentials and nothing chosen.
    pub fn new() -> (r: ClientConfig)
        ensures
            r.client_id@.len() == 0,
            r.client_secret@.len() == 0,
            r.current_project is None,
            r.show_finished is None,
            r.show_today is None,
    {
        ClientConfig {
            client_id: String::new(),
            client_secret: String::new(),
            current_project: None,
            show_finished: None,
            show_today: None,
        }
    }
}

} // verus!
