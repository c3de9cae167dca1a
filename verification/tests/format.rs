use scriptre::format::{ParseElementError, ScreenplayElement, ScreenplayElementKind};

#[test]
fn kind_names() {
    assert_eq!(ScreenplayElementKind::General.name(), "General");
    assert_eq!(ScreenplayElementKind::SceneHeading.name(), "SceneHeading");
    assert_eq!(ScreenplayElementKind::Action.name(), "Action");
    assert_eq!(ScreenplayElementKind::Character.name(), "Character");
    assert_eq!(ScreenplayElementKind::Parenthetical.name(), "Parenthetical");
    assert_eq!(ScreenplayElementKind::Dialogue.name(), "Dialogue");
    assert_eq!(ScreenplayElementKind::Transition.name(), "Transition");
}

#[test]
fn element_names() {
    assert_eq!(ScreenplayElement::General.name(), "General");
    assert_eq!(ScreenplayElement::SceneHeading.name(), "SceneHeading");
    assert_eq!(ScreenplayElement::Action.name(), "Action");
    assert_eq!(ScreenplayElement::Character.name(), "Character");
    assert_eq!(ScreenplayElement::Parenthetical.name(), "Parenthetical");
    assert_eq!(ScreenplayElement::Dialogue.name(), "Dialogue");
    assert_eq!(ScreenplayElement::Transition.name(), "Transition");
}

#[test]
fn parse_element_error_message() {
    assert_eq!(ParseElementError.message(), "invalid screenplay element");
}
