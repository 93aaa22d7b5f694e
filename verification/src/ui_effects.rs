use vstd::prelude::*;

verus! {

/// Passing visual effects of the interface.
pub struct UiEffects {
    pub flash_space_freed: bool,
    pub current_path_is_red: bool,
    pub deletion_in_progress: bool,
    pub loading_progress_indicator: u64,
    pub last_read_path: Option<Vec<String>>,
}

impl UiEffects {
    /// No effect shown, the scanning animation at its start.
    pub fn new() -> (r: UiEffects)
        ensures
            !r.flash_space_freed,
            !r.current_path_is_red,
            !r.deletion_in_progress,
            r.loading_progress_indicator == 0,
            r.last_read_path is None,
    {
        UiEffects {
            flash_space_freed: false,
            current_path_is_red: false,
            deletion_in_progress: false,
            loading_progress_indicator: 0,
            last_read_path: None,
        }
    }

    /// Moves the scanning animation three steps on.
    pub fn increment_loading_progress_indicator(&mut self)
        requires
            old(self).loading_progress_indicator + 3 <= u64::MAX,
        ensures
            final(self).loading_progress_indicator == old(self).loading_progress_indicator + 3,
            final(self).flash_space_freed == old(self).flash_space_freed,
            final(self).current_path_is_red == old(self).current_path_is_red,
            final(self).deletion_in_progress == old(self).deletion_in_progress,
            final(self).last_read_path == old(self).last_read_path,
    {
        self.loading_progress_indicator = self.loading_progress_indicator + 3;
    }
}

} // verus!
