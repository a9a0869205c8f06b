use bevy_enum_event::naming::{ascii_case_behaviour, to_snake_case};

#[test]
fn test_snake_case_conversion() {
    assert_eq!(to_snake_case("LifeFSM"), "life_fsm");
    assert_eq!(to_snake_case("PlayerState"), "player_state");
    assert_eq!(to_snake_case("HTTPServer"), "http_server");
    assert_eq!(to_snake_case("FSM"), "fsm");
    assert_eq!(to_snake_case("MyHTTPSConnection"), "my_https_connection");
}

#[test]
fn snake_case_of_camel_case() {
    assert_eq!(to_snake_case("playerState"), "player_state");
    assert_eq!(to_snake_case("FSMState"), "fsm_state");
    assert_eq!(to_snake_case("GameEvent"), "game_event");
}

#[test]
fn snake_case_keeps_lowercase_input() {
    assert_eq!(to_snake_case(""), "");
    assert_eq!(to_snake_case("already_snake"), "already_snake");
    assert_eq!(to_snake_case("x1_y2"), "x1_y2");
}

#[test]
fn snake_case_is_idempotent_on_ascii() {
    for s in ["LifeFSM", "HTTPServer", "MyHTTPSConnection", "aB", "ABc", "Ab1C"] {
        let once = to_snake_case(s);
        assert_eq!(to_snake_case(&once), once);
        assert!(!once.chars().any(|c| c.is_ascii_uppercase()));
    }
}

#[test]
fn snake_case_of_digits_and_underscores() {
    assert_eq!(to_snake_case("Player2State"), "player2_state");
    assert_eq!(to_snake_case("A_B"), "a_b");
    assert_eq!(to_snake_case("Ab_C"), "ab_c");
}

#[test]
fn snake_case_of_non_ascii() {
    assert_eq!(to_snake_case("ÉtatJeu"), "état_jeu");
    assert_eq!(to_snake_case("ΔTime"), "δ_time");
}

#[test]
fn ascii_case_behaviour_runs() {
    ascii_case_behaviour();
    assert_eq!(to_snake_case("ABC_def"), "abc_def");
}
