//! Screenplay paragraph categories.
//!
//! Document content is written as a sequence of block-level elements in the
//! categories common screenplay formats recognize. The categories are
//! tool-agnostic: mapping them to render rules or icons is the presentation
//! layer's business.

use vstd::prelude::*;

verus! {

/// Paragraph-level element kinds in a screenplay.
#[derive(Clone, Copy, Debug, PartialEq, Eq, Structural, Hash)]
pub enum ScreenplayElementKind {
    /// Any typing that does not fit another category.
    General,
    /// Scene heading (aka slugline): e.g., INT. OFFICE - DAY.
    SceneHeading,
    /// Action/description blocks.
    Action,
    /// Character cue preceding dialogue.
    Character,
    /// Parenthetical (wryly), between character and dialogue.
    Parenthetical,
    /// Dialogue text.
    Dialogue,
    /// Transition blocks (e.g., CUT TO:).
    Transition,
}

/// The display name of each [`ScreenplayElementKind`].
pub open spec fn spec_kind_name(k: ScreenplayElementKind) -> Seq<char> {
    match k {
        ScreenplayElementKind::General => "General"@,
        ScreenplayElementKind::SceneHeading => "SceneHeading"@,
        ScreenplayElementKind::Action => "Action"@,
        ScreenplayElementKind::Character => "Character"@,
        ScreenplayElementKind::Parenthetical => "Parenthetical"@,
        ScreenplayElementKind::Dialogue => "Dialogue"@,
        ScreenplayElementKind::Transition => "Transition"@,
    }
}

impl ScreenplayElementKind {
    /// The category's display name.
    pub fn name(&self) -> (s: String)
        ensures
            s@ == spec_kind_name(*self),
    {
        broadcast use vstd::string::to_string_from_display_ensures_for_str;

        match self {
            ScreenplayElementKind::General => "General".to_string(),
            ScreenplayElementKind::SceneHeading => "SceneHeading".to_string(),
            ScreenplayElementKind::Action => "Action".to_string(),
            ScreenplayElementKind::Character => "Character".to_string(),
            ScreenplayElementKind::Parenthetical => "Parenthetical".to_string(),
            ScreenplayElementKind::Dialogue => "Dialogue".to_string(),
            ScreenplayElementKind::Transition => "Transition".to_string(),
        }
    }
}

/// A screenplay block element, by category. The composing surface keeps one
/// per paragraph.
#[derive(Clone, Copy, Debug, PartialEq, Eq, Structural, Hash)]
pub enum ScreenplayElement {
    /// Any typing that does not fit another category.
    General,
    /// Scene heading (aka slugline): e.g., INT. OFFICE - DAY.
    SceneHeading,
    /// Action/description blocks.
    Action,
    /// Character cue preceding dialogue.
    Character,
    /// Parenthetical (wryly), between character and dialogue.
    Parenthetical,
    /// Dialogue text.
    Dialogue,
    /// Transition blocks (e.g., CUT TO:).
    Transition,
}

/// The display name of each [`ScreenplayElement`].
pub open spec fn spec_element_name(k: ScreenplayElement) -> Seq<char> {
    match k {
        ScreenplayElement::General => "General"@,
        ScreenplayElement::SceneHeading => "SceneHeading"@,
        ScreenplayElement::Action => "Action"@,
        ScreenplayElement::Character => "Character"@,
        ScreenplayElement::Parenthetical => "Parenthetical"@,
        ScreenplayElement::Dialogue => "Dialogue"@,
        ScreenplayElement::Transition => "Transition"@,
    }
}

impl ScreenplayElement {
    /// The element's display name.
    pub fn name(&self) -> (s: String)
        ensures
            s@ == spec_element_name(*self),
    {
        broadcast use vstd::string::to_string_from_display_ensures_for_str;

        match self {
            ScreenplayElement::General => "General".to_string(),
            ScreenplayElement::SceneHeading => "SceneHeading".to_string(),
            ScreenplayElement::Action => "Action".to_string(),
            ScreenplayElement::Character => "Character".to_string(),
            ScreenplayElement::Parenthetical => "Parenthetical".to_string(),
            ScreenplayElement::Dialogue => "Dialogue".to_string(),
            ScreenplayElement::Transition => "Transition".to_string(),
        }
    }
}

/// Error when text names no screenplay element category.
#[derive(Clone, Copy, Debug, PartialEq, Eq, Structural)]
pub struct ParseElementError;

impl ParseElementError {
    /// The error's display text.
    pub fn message(&self) -> (s: String)
        ensures
            s@ == "invalid screenplay element"@,
    {
        broadcast use vstd::string::to_string_from_display_ensures_for_str;

        "invalid screenplay element".to_string()
    }
}

} // verus!
