//! Splitting a machine's output at a marker line: what comes before it is shown,
//! what comes after it is the exported image.
use vstd::prelude::*;

verus! {

/// "UM program follows colon:", the text after which the decryption program writes
/// the image it decoded.
pub const SIG_EXPORT: [u8; 25] = [
    85, 77, 32, 112, 114, 111, 103, 114, 97, 109, 32, 102, 111, 108, 108, 111, 119, 115, 32, 99,
    111, 108, 111, 110, 58,
];

/// Where an output byte goes.
#[derive(Debug, Clone, Copy, PartialEq, Eq, Structural)]
pub enum Route {
    /// To the display: the marker has not been seen yet.
    Show,
    /// To the exported image: it follows the marker.
    Export,
}

/// The last bytes of `s`, at most as many as the marker has.
pub open spec fn window(s: Seq<u8>) -> Seq<u8> {
    if s.len() > SIG_EXPORT@.len() {
        s.subrange(s.len() - SIG_EXPORT@.len(), s.len() as int)
    } else {
        s
    }
}

/// Watches shown output for the marker; every byte after it is exported.
pub struct ExportWatch {
    recent: Vec<u8>,
    exporting: bool,
}

impl ExportWatch {
    /// The last shown bytes, at most as many as the marker has.
    pub closed spec fn recent(&self) -> Seq<u8> {
        self.recent@
    }

    /// Whether the marker has been seen.
    pub closed spec fn is_exporting(&self) -> bool {
        self.exporting
    }

    /// The window never outgrows the marker.
    pub closed spec fn wf(&self) -> bool {
        self.recent@.len() <= SIG_EXPORT@.len()
    }

    /// A watch that has seen nothing.
    pub fn new() -> (w: ExportWatch)
        ensures
            w.wf(),
            w.recent() == Seq::<u8>::empty(),
            !w.is_exporting(),
    {
        ExportWatch { recent: Vec::new(), exporting: false }
    }

    /// Whether the marker has been seen.
    pub fn exporting(&self) -> (r: bool)
        ensures
            r == self.is_exporting(),
    {
        self.exporting
    }

    /// Routes one output byte: shown until the marker has been shown in full, exported
    /// from the byte after it on.
    pub fn feed(&mut self, b: u8) -> (r: Route)
        requires
            old(self).wf(),
        ensures
            final(self).wf(),
            old(self).is_exporting() ==> r == Route::Export && final(self).recent() == old(
                self,
            ).recent() && final(self).is_exporting(),
            !old(self).is_exporting() ==> {
                &&& r == Route::Show
                &&& final(self).recent() == window(old(self).recent().push(b))
                &&& final(self).is_exporting() == (final(self).recent() == SIG_EXPORT@)
            },
    {
        if self.exporting {
            return Route::Export;
        }
        self.recent.push(b);
        if self.recent.len() > SIG_EXPORT.len() {
            self.recent.remove(0);
        }
        assert(self.recent@ =~= window(old(self).recent@.push(b)));
        self.exporting = self.test_for_export();
        Route::Show
    }

    /// Whether the window holds exactly the marker.
    fn test_for_export(&self) -> (r: bool)
        ensures
            r == (self.recent@ == SIG_EXPORT@),
    {
        if self.recent.len() != SIG_EXPORT.len() {
            return false;
        }
        let mut i: usize = 0;
        while i < SIG_EXPORT.len()
            invariant
                self.recent@.len() == SIG_EXPORT@.len(),
                i <= SIG_EXPORT@.len(),
                forall|j: int| 0 <= j < i ==> self.recent@[j] == SIG_EXPORT@[j],
            decreases SIG_EXPORT@.len() - i,
        {
            if self.recent[i] != SIG_EXPORT[i] {
                return false;
            }
            i = i + 1;
        }
        assert(self.recent@ =~= SIG_EXPORT@);
        true
    }
}

} // verus!
