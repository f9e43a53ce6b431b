use retro_games::launcher;
use retro_games::models::runner::{Difficulty, ObstacleKind, Scene};
use retro_games::Game;

#[test]
fn window_menu_alternates() {
    let g = Game::default();
    assert_eq!(g, Game::Tetris);
    assert_eq!(g.to_str(), "Tetris");
    let g = g.switch();
    assert_eq!(g, Game::Snake);
    assert_eq!(g.to_str(), "Snake");
    assert_eq!(g.switch(), Game::Tetris);
}

#[test]
fn terminal_menu_cycles() {
    let g = launcher::Game::default();
    assert_eq!(g, launcher::Game::Pong);
    assert_eq!(g.to_str(), "Pong");
    let g = g.switch();
    assert_eq!(g, launcher::Game::Snake);
    assert_eq!(g.to_str(), "Snake");
    let g = g.switch();
    assert_eq!(g, launcher::Game::Tetris);
    assert_eq!(g.to_str(), "Tetris");
    assert_eq!(g.switch(), launcher::Game::Pong);
}

#[test]
fn difficulty_cycles_and_labels() {
    let d = Difficulty::default();
    assert_eq!(d, Difficulty::Normal);
    assert_eq!(d.label(), "Normal");
    assert!(d.ptero_enabled());
    let d = d.switch();
    assert_eq!(d, Difficulty::Hard);
    assert_eq!(d.label(), "Hard");
    assert!(d.ptero_enabled());
    let d = d.switch();
    assert_eq!(d, Difficulty::Easy);
    assert_eq!(d.label(), "Easy");
    assert!(!d.ptero_enabled());
    assert_eq!(d.switch(), Difficulty::Normal);
}

#[test]
fn scene_starts_on_welcome() {
    assert_eq!(Scene::default(), Scene::Welcome);
}

#[test]
fn obstacle_kinds_carry_their_flag() {
    assert!(matches!(ObstacleKind::Cactus(true), ObstacleKind::Cactus(true)));
    assert!(matches!(
        ObstacleKind::Pterodactyl(false),
        ObstacleKind::Pterodactyl(false)
    ));
}
