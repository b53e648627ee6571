//! Text panels for points of interest: a tombstone's description panel is
//! composed of four styled sections (title line, creator, summary, source).
//! The host's text layout only receives the finished strings and sizes.

use vstd::prelude::*;
use vstd::string::StringExecFns;

use crate::scene::ColorRgb;

verus! {

/// One styled run of text in a panel.
#[derive(Clone, Debug)]
pub struct TextSection {
    /// Font size in points.
    pub font_size: u32,
    /// Text colour.
    pub color: ColorRgb,
    /// The text itself.
    pub text: String,
}

/// Compose the text panel of a tombstone: a title line of the title and the
/// date, the creator, the summary, and the source, in four sections of
/// descending font size, all in the same dark grey.
pub fn tombstone(title: &str, date: &str, creator: &str, summary: &str, source: &str) -> (sections:
    Vec<TextSection>)
    ensures
        sections@.len() == 4,
        sections@[0].font_size == 48,
        sections@[0].text@ == title@ + ", "@ + date@ + "\n\n"@,
        sections@[1].font_size == 32,
        sections@[1].text@ == creator@ + "\n\n"@,
        sections@[2].font_size == 24,
        sections@[2].text@ == summary@ + "\n"@,
        sections@[3].font_size == 16,
        sections@[3].text@ == source@,
        forall|k: int|
            0 <= k < 4 ==> (#[trigger] sections@[k].color) == (ColorRgb { r: 200, g: 200, b: 200 }),
{
    let color = ColorRgb { r: 200, g: 200, b: 200 };
    let heading = title.to_owned().concat(", ").concat(date).concat("\n\n");
    let creator_line = creator.to_owned().concat("\n\n");
    let summary_line = summary.to_owned().concat("\n");
    let source_line = source.to_owned();
    let sections: Vec<TextSection> = vec![
        TextSection { font_size: 48, color, text: heading },
        TextSection { font_size: 32, color, text: creator_line },
        TextSection { font_size: 24, color, text: summary_line },
        TextSection { font_size: 16, color, text: source_line },
    ];
    sections
}

} // verus!
