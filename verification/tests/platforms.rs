use array_stream::game::Game;

#[test]
fn platform_names_are_lower_case() {
    assert_eq!(Game::Paper.name(), "paper");
    assert_eq!(Game::Arena.name(), "arena");
    assert_eq!(Game::Mtgo.name(), "mtgo");
    assert_eq!(Game::Astral.name(), "astral");
    assert_eq!(Game::Sega.name(), "sega");
}

#[test]
fn platforms_compare_by_variant() {
    assert_eq!(Game::Paper, Game::Paper);
    assert_ne!(Game::Paper, Game::Arena);
    let copy = Game::Mtgo;
    assert_eq!(copy, Game::Mtgo);
}
