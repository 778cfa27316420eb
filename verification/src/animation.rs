//! The outwardly visible state of the panel, and the hide delay.

use vstd::prelude::*;

use crate::imservice::ContentPurpose;
use crate::layout::ArrangementKind;
use crate::outputs::OutputId;
use crate::panel::PixelSize;

verus! {

/// Milliseconds the keyboard stays up after the input method goes away,
/// to prevent flickering on quick successive disable/enable pairs.
pub const HIDING_TIMEOUT: u64 = 200;

/// Description of the parameters which influence panel contents.
#[derive(Debug)]
pub struct Contents {
    pub name: String,
    pub kind: ArrangementKind,
    pub overlay_name: Option<String>,
    pub purpose: ContentPurpose,
}

/// Mathematical image of `Contents`, with names as character sequences.
pub ghost struct ContentsV {
    pub name: Seq<char>,
    pub kind: ArrangementKind,
    pub overlay_name: Option<Seq<char>>,
    pub purpose: ContentPurpose,
}

impl View for Contents {
    type V = ContentsV;

    open spec fn view(&self) -> ContentsV {
        ContentsV {
            name: self.name@,
            kind: self.kind,
            overlay_name: match self.overlay_name {
                Some(ref n) => Some(n@),
                None => None,
            },
            purpose: self.purpose,
        }
    }
}

impl Clone for Contents {
    fn clone(&self) -> (res: Self)
        ensures
            res@ == self@,
    {
        Contents {
            name: self.name.clone(),
            kind: self.kind,
            overlay_name: match &self.overlay_name {
                Some(n) => Some(n.clone()),
                None => None,
            },
            purpose: self.purpose,
        }
    }
}

impl Contents {
    /// Field-wise equality; two equal `Contents` ask for the same layout.
    pub fn same_as(&self, other: &Contents) -> (r: bool)
        ensures
            r == (self@ == other@),
    {
        let overlay_same = match (&self.overlay_name, &other.overlay_name) {
            (Some(a), Some(b)) => *a == *b,
            (None, None) => true,
            _ => false,
        };
        let r = self.name == other.name && self.kind == other.kind && overlay_same
            && self.purpose == other.purpose;
        proof {
            if r {
                assert(self@ == other@);
            } else {
                assert(self@ != other@);
            }
        }
        r
    }
}

/// The outwardly visible state of visibility.
#[derive(Clone, Debug)]
pub enum Outcome {
    Visible { output: OutputId, height: PixelSize, contents: Contents },
    Hidden,
}

/// Mathematical image of `Outcome`.
pub ghost enum PanelV {
    Visible { output: OutputId, height: PixelSize, contents: ContentsV },
    Hidden,
}

impl View for Outcome {
    type V = PanelV;

    open spec fn view(&self) -> PanelV {
        match self {
            Outcome::Visible { output, height, contents } => PanelV::Visible {
                output: *output,
                height: *height,
                contents: contents@,
            },
            Outcome::Hidden => PanelV::Hidden,
        }
    }
}

} // verus!
