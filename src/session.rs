//! What a saved session records of the open buffers, and where it is kept.
use vstd::prelude::*;

verus! {

/// The open buffers, which one was current, and the last directory used.
#[derive(Clone, Debug)]
pub struct SessionData {
    pub buffers: Vec<BufferSession>,
    pub current_buffer_id: Option<usize>,
    pub last_directory: Option<String>,
}

/// One open buffer: its id, file, cursor and whether it held unsaved changes.
#[derive(Clone, Debug)]
pub struct BufferSession {
    pub id: usize,
    pub path: Option<String>,
    pub cursor_row: usize,
    pub cursor_col: usize,
    pub modified: bool,
}

/// Where sessions are kept.
pub struct SessionManager {
    pub session_file: String,
}

impl SessionManager {
    /// Sessions kept under `home` (the current directory where there is no home
    /// directory), in `.config/zen-vim/session.json`.
    pub fn new(home: Option<&str>) -> (r: SessionManager)
        ensures
            r.session_file@ == match home {
                Some(h) => h@,
                None => "."@,
            } + "/.config/zen-vim/session.json"@,
    {
        let mut file = match home {
            Some(h) => String::from_str(h),
            None => String::from_str("."),
        };
        file.append("/.config/zen-vim/session.json");
        SessionManager { session_file: file }
    }

    pub fn session_file(&self) -> (r: &str)
        ensures
            r@ == self.session_file@,
    {
        self.session_file.as_str()
    }
}

} // verus!
