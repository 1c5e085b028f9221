//! The POI collection engine: one logical worker per platform walking
//! categories, keywords and pages.
//!
//! The host thread owns the clock and the network; between any two
//! requests it asks this state machine what to do next and reports what
//! happened.  The machine owns the plan position, the saved total, the
//! completed categories, and the phase transitions of the run.

use vstd::prelude::*;
use crate::categories::Category;
use crate::collectors::SearchError;

verus! {

/// The phase of one platform's collector.
#[derive(Debug, Clone, Copy, PartialEq, Eq, Structural)]
pub enum CollectorPhase {
    Idle,
    Running,
    Paused,
    Completed,
    Error,
}

impl CollectorPhase {
    /// The reported label of this phase.
    pub open spec fn label(self) -> Seq<char> {
        match self {
            CollectorPhase::Idle => "idle"@,
            CollectorPhase::Running => "running"@,
            CollectorPhase::Paused => "paused"@,
            CollectorPhase::Completed => "completed"@,
            CollectorPhase::Error => "error"@,
        }
    }

    /// Renders the phase label.
    pub fn to_string(&self) -> (s: String)
        ensures
            s@ == self.label(),
    {
        match self {
            CollectorPhase::Idle => "idle".to_owned(),
            CollectorPhase::Running => "running".to_owned(),
            CollectorPhase::Paused => "paused".to_owned(),
            CollectorPhase::Completed => "completed".to_owned(),
            CollectorPhase::Error => "error".to_owned(),
        }
    }
}

/// What the host should do next for this platform.
#[derive(Debug, Clone, PartialEq, Eq)]
pub enum CollectorAction {
    /// Sleep the inter-request interval, then search this category,
    /// keyword and page.
    Search { cat_idx: usize, kw_idx: usize, page: u64 },
    /// The plan is exhausted or the run has ended; stop calling.
    Done,
}

/// One platform's run through its plan.
#[derive(Debug, Clone)]
pub struct CollectorRun {
    pub platform: String,
    pub categories: Vec<Category>,
    pub cat_idx: usize,
    pub kw_idx: usize,
    pub page: u64,
    pub total_saved: i64,
    pub completed_categories: Vec<String>,
    pub phase: CollectorPhase,
    pub error_message: Option<String>,
}

impl CollectorRun {
    /// A sane position: within the plan, page counted from one.
    pub open spec fn wf(self) -> bool {
        &&& forall|i: int|
            0 <= i < self.categories@.len() ==> (#[trigger] self.categories@[i]).keywords@.len()
                > 0
        &&& self.cat_idx <= self.categories@.len()
        &&& (self.cat_idx < self.categories@.len() ==> self.kw_idx
            < self.categories@[self.cat_idx as int].keywords@.len())
        &&& self.page >= 1
        &&& self.total_saved >= 0
    }

    /// A fresh run over the selected categories, positioned at the first
    /// keyword of the first category.
    pub fn start(platform: String, categories: Vec<Category>) -> (r: CollectorRun)
        requires
            forall|i: int|
                0 <= i < categories@.len() ==> (#[trigger] categories@[i]).keywords@.len() > 0,
        ensures
            r.wf(),
            r.platform == platform,
            r.categories == categories,
            r.cat_idx == 0 && r.kw_idx == 0 && r.page == 1,
            r.total_saved == 0,
            r.completed_categories@.len() == 0,
            r.phase == if categories@.len() == 0 {
                CollectorPhase::Completed
            } else {
                CollectorPhase::Running
            },
    {
        let phase = if categories.len() == 0 {
            CollectorPhase::Completed
        } else {
            CollectorPhase::Running
        };
        CollectorRun {
            platform,
            categories,
            cat_idx: 0,
            kw_idx: 0,
            page: 1,
            total_saved: 0,
            completed_categories: Vec::new(),
            phase,
            error_message: None,
        }
    }

    /// The next request, while the run is in motion.
    pub fn next_action(&self) -> (r: CollectorAction)
        requires
            self.wf(),
        ensures
            self.phase == CollectorPhase::Running && self.cat_idx < self.categories@.len()
                ==> r == (CollectorAction::Search {
                cat_idx: self.cat_idx,
                kw_idx: self.kw_idx,
                page: self.page,
            }),
            self.phase != CollectorPhase::Running || self.cat_idx >= self.categories@.len()
                ==> r == CollectorAction::Done,
    {
        if matches!(self.phase, CollectorPhase::Running) && self.cat_idx < self.categories.len() {
            CollectorAction::Search { cat_idx: self.cat_idx, kw_idx: self.kw_idx, page: self.page }
        } else {
            CollectorAction::Done
        }
    }

    /// Moves past the current keyword: the next keyword of the category,
    /// or — once the category's keywords are spent — the next category,
    /// appending the finished category to the completed list.  The whole
    /// plan spent, the run completes.
    fn advance_keyword(&mut self)
        requires
            old(self).wf(),
            old(self).cat_idx < old(self).categories@.len(),
        ensures
            final(self).wf(),
            final(self).platform == old(self).platform,
            final(self).categories == old(self).categories,
            final(self).total_saved == old(self).total_saved,
            final(self).page == 1,
            final(self).error_message == old(self).error_message,
            old(self).kw_idx + 1 < old(self).categories@[old(self).cat_idx as int].keywords@.len()
                ==> {
                &&& final(self).cat_idx == old(self).cat_idx
                &&& final(self).kw_idx == old(self).kw_idx + 1
                &&& final(self).completed_categories == old(self).completed_categories
                &&& final(self).phase == old(self).phase
            },
            old(self).kw_idx + 1 >= old(self).categories@[old(self).cat_idx as int].keywords@.len()
                ==> {
                &&& final(self).cat_idx == old(self).cat_idx + 1
                &&& final(self).kw_idx == 0
                &&& final(self).completed_categories@ == old(self).completed_categories@.push(
                    old(self).categories@[old(self).cat_idx as int].id,
                )
                &&& (final(self).cat_idx == old(self).categories@.len() ==> final(self).phase
                    == CollectorPhase::Completed)
                &&& (final(self).cat_idx < old(self).categories@.len() ==> final(self).phase
                    == old(self).phase)
            },
    {
        self.page = 1;
        let total = self.categories.len();
        let kw_count = self.categories[self.cat_idx].keywords.len();
        if self.kw_idx + 1 < kw_count {
            self.kw_idx = self.kw_idx + 1;
        } else {
            let done_id = self.categories[self.cat_idx].id.clone();
            self.completed_categories.push(done_id);
            self.cat_idx = self.cat_idx + 1;
            self.kw_idx = 0;
            if self.cat_idx == self.categories.len() {
                self.phase = CollectorPhase::Completed;
            }
        }
    }

    /// Takes a successful page: the newly saved records are counted, the
    /// total never decreases, and the plan either turns to the next page
    /// or — on an empty or final page — to the next keyword.
    pub fn on_page(&mut self, saved: i64, fetched: usize, has_more: bool)
        requires
            old(self).wf(),
            old(self).phase == CollectorPhase::Running,
            old(self).cat_idx < old(self).categories@.len(),
            saved >= 0,
            old(self).total_saved + saved <= i64::MAX,
            old(self).page < u64::MAX,
        ensures
            final(self).wf(),
            final(self).platform == old(self).platform,
            final(self).categories == old(self).categories,
            final(self).total_saved == old(self).total_saved + saved,
            final(self).total_saved >= old(self).total_saved,
            fetched > 0 && has_more ==> final(self).cat_idx == old(self).cat_idx && final(self).kw_idx == old(self).kw_idx && final(self).page == old(self).page + 1 && final(self).phase == CollectorPhase::Running,
            fetched == 0 || !has_more ==> final(self).page == 1 && (final(self).phase
                == CollectorPhase::Running || final(self).phase == CollectorPhase::Completed)
                && (final(self).phase == CollectorPhase::Completed <==> final(self).cat_idx
                == old(self).categories@.len()),
            (fetched == 0 || !has_more) && old(self).kw_idx + 1 < old(self).categories@[old(
                self,
            ).cat_idx as int].keywords@.len() ==> final(self).cat_idx == old(self).cat_idx
                && final(self).kw_idx == old(self).kw_idx + 1 && final(self).completed_categories
                == old(self).completed_categories,
            (fetched == 0 || !has_more) && old(self).kw_idx + 1 >= old(self).categories@[old(
                self,
            ).cat_idx as int].keywords@.len() ==> final(self).cat_idx == old(self).cat_idx + 1
                && final(self).kw_idx == 0 && final(self).completed_categories@ == old(
                self,
            ).completed_categories@.push(old(self).categories@[old(self).cat_idx as int].id),
            final(self).completed_categories@ == old(self).completed_categories@ || final(self).completed_categories@ == old(self).completed_categories@.push(
                old(self).categories@[old(self).cat_idx as int].id,
            ),
    {
        self.total_saved = self.total_saved + saved;
        if fetched > 0 && has_more {
            self.page = self.page + 1;
        } else {
            self.advance_keyword();
        }
    }

    /// Takes a failed search: quota exhaustion ends the whole run in the
    /// error phase with its message kept; any other failure skips to the
    /// next keyword.
    pub fn on_error(&mut self, err: &SearchError, message: String)
        requires
            old(self).wf(),
            old(self).phase == CollectorPhase::Running,
            old(self).cat_idx < old(self).categories@.len(),
        ensures
            final(self).wf(),
            final(self).platform == old(self).platform,
            final(self).categories == old(self).categories,
            final(self).total_saved == old(self).total_saved,
            err matches SearchError::Quota(_) ==> final(self).phase == CollectorPhase::Error
                && final(self).error_message == Some(message),
            !(err matches SearchError::Quota(_)) ==> final(self).error_message == old(self).error_message && final(self).page == 1 && (final(self).phase
                == CollectorPhase::Running || final(self).phase == CollectorPhase::Completed),
    {
        if matches!(err, SearchError::Quota(_)) {
            self.phase = CollectorPhase::Error;
            self.error_message = Some(message);
        } else {
            self.advance_keyword();
        }
    }

    /// Takes a stop request: the run pauses where it stands.
    pub fn on_stop(&mut self)
        ensures
            *final(self) == (CollectorRun { phase: CollectorPhase::Paused, ..*old(self) }),
    {
        self.phase = CollectorPhase::Paused;
    }
}

} // verus!
