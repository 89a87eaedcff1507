use minecraft::execute::{Datapack, Game, Level};
use minecraft::{
    Command, Criteria, DisplaySlot, Execute, Function, FunctionIdentifier, If, Interval,
    Modification, Objectives, ObjectivesAdd, ObjectivesModify, ObjectivesRemove,
    ObjectivesSetDisplay, OperationType, Players, PlayersAdd, PlayersOperation, PlayersRemove,
    PlayersSet, RangeComparison, RenderType, Score, Scoreboard, Target, Tellraw,
};

fn assert_log(game: &Game, i: usize, level: Level, message: &str) {
    assert!(i < game.log_len(), "no log line at position {}", i);
    let entry = game.log_at(i);
    assert_eq!(entry.level, level);
    assert_eq!(entry.message, message);
}

fn add_objective(objective: &str, display_name: Option<&str>) -> Command {
    Command::Scoreboard(Scoreboard::Objectives(Objectives::Add(ObjectivesAdd {
        objective: objective.to_string(),
        criteria: Criteria::Dummy,
        display_name: display_name.map(|d| d.to_string()),
    })))
}

fn set_score(player: &str, objective: &str, score: i32) -> Command {
    Command::Scoreboard(Scoreboard::Players(Players::SetScore(PlayersSet {
        targets: Target::Name(player.to_string()),
        objective: objective.to_string(),
        score,
    })))
}

fn add_score(player: &str, objective: &str, score: i32) -> Command {
    Command::Scoreboard(Scoreboard::Players(Players::Add(PlayersAdd {
        targets: Target::Name(player.to_string()),
        objective: objective.to_string(),
        score,
    })))
}

fn remove_score(player: &str, objective: &str, score: i32) -> Command {
    Command::Scoreboard(Scoreboard::Players(Players::Remove(PlayersRemove {
        targets: Target::Name(player.to_string()),
        objective: objective.to_string(),
        score,
    })))
}

#[test]
fn execute_scoreboard_objectives_add_no_display() {
    let command = add_objective("obj", None);
    let mut game = Game::new();
    game.execute(&command);
    assert!(game.has_objective("obj"));
    assert_log(&game, 0, Level::Info, "Created new objective [obj]");
}

#[test]
fn execute_scoreboard_objectives_add_with_display() {
    let command = add_objective("obj", Some("obj name"));
    let mut game = Game::new();
    game.execute(&command);
    assert!(game.has_objective("obj"));
    assert_log(&game, 0, Level::Info, "Created new objective [obj name]");
}

#[test]
fn execute_scoreboard_objectives_add_twice() {
    let command = add_objective("obj", Some("obj name"));
    let mut game = Game::new();
    game.execute(&command);
    game.execute(&command);
    assert!(game.has_objective("obj"));
    assert_log(&game, 0, Level::Info, "Created new objective [obj name]");
    assert_log(
        &game,
        1,
        Level::Fail,
        "An objective already exists by that name",
    );
}

#[test]
fn execute_scoreboard_objectives_add_same_display() {
    let mut game = Game::new();
    game.execute(&add_objective("obj1", Some("display name")));
    game.execute(&add_objective("obj2", Some("display name")));
    assert!(game.has_objective("obj1"));
    assert!(game.has_objective("obj2"));
    assert_log(&game, 0, Level::Info, "Created new objective [display name]");
    assert_log(&game, 1, Level::Info, "Created new objective [display name]");
}

#[test]
fn execute_scoreboard_objectives_list_0_objectives() {
    let command = Command::Scoreboard(Scoreboard::Objectives(Objectives::List));
    let mut game = Game::new();
    game.execute(&command);
    assert_log(&game, 0, Level::Info, "There are no objectives");
}

#[test]
fn execute_scoreboard_objectives_list_1_objective() {
    let command = Command::Scoreboard(Scoreboard::Objectives(Objectives::List));
    let mut game = Game::new();
    game.execute(&add_objective("obj", Some("obj name")));
    game.execute(&command);
    assert_log(&game, 1, Level::Info, "There are 1 objectives: [obj name]");
}

#[test]
fn execute_scoreboard_objectives_list_many_objectives() {
    let command = Command::Scoreboard(Scoreboard::Objectives(Objectives::List));
    let mut game = Game::new();
    game.execute(&add_objective("obj1", None));
    game.execute(&add_objective("obj2", None));
    game.execute(&add_objective("obj3", None));
    game.execute(&command);
    let entry = game.log_at(3);
    assert_eq!(entry.level, Level::Info);
    assert!(entry.message.starts_with("There are 3 objectives: "));
    let mut names: Vec<&str> = entry.message[(entry.message.find(":").unwrap() + 2)..]
        .split(" ")
        .collect();
    let mut expected = vec!["[obj1]", "[obj2]", "[obj3]"];
    names.sort();
    expected.sort();
    assert_eq!(names, expected);
}

#[test]
fn execute_scoreboard_objectives_modify_display_name() {
    let command = Command::Scoreboard(Scoreboard::Objectives(Objectives::Modify(
        ObjectivesModify {
            objective: String::from("obj"),
            modification: Modification::DisplayName(String::from("new display name")),
        },
    )));
    let mut game = Game::new();
    game.execute(&add_objective("obj", Some("prev display name")));
    game.execute(&command);
    assert_eq!(
        game.objective_display_name("obj"),
        Some("new display name".to_string())
    );
    assert_log(
        &game,
        1,
        Level::Info,
        "Changed objective obj display name to [new display name]",
    );
}

#[test]
fn execute_scoreboard_objectives_modify_display_name_no_objective() {
    let command = Command::Scoreboard(Scoreboard::Objectives(Objectives::Modify(
        ObjectivesModify {
            objective: String::from("obj"),
            modification: Modification::DisplayName(String::from("new display name")),
        },
    )));
    let mut game = Game::new();
    game.execute(&command);
    assert_log(&game, 0, Level::Fail, "Unknown scoreboard objective 'obj'");
}

#[test]
fn execute_scoreboard_objectives_modify_display_name_no_change() {
    let command = Command::Scoreboard(Scoreboard::Objectives(Objectives::Modify(
        ObjectivesModify {
            objective: String::from("obj"),
            modification: Modification::DisplayName(String::from("display name")),
        },
    )));
    let mut game = Game::new();
    game.execute(&add_objective("obj", Some("display name")));
    game.execute(&command);
    assert_eq!(game.log_len(), 1);
}

#[test]
fn execute_scoreboard_objectives_remove_existing() {
    let command = Command::Scoreboard(Scoreboard::Objectives(Objectives::Remove(
        ObjectivesRemove {
            objective: String::from("obj"),
        },
    )));
    let mut game = Game::new();
    game.execute(&add_objective("obj", Some("display name")));
    game.execute(&command);
    assert!(!game.has_objective("obj"));
    assert_log(&game, 1, Level::Info, "Removed objective [display name]");
}

#[test]
fn execute_scoreboard_objectives_remove_nothing() {
    let command = Command::Scoreboard(Scoreboard::Objectives(Objectives::Remove(
        ObjectivesRemove {
            objective: String::from("obj"),
        },
    )));
    let mut game = Game::new();
    game.execute(&command);
    assert_log(&game, 0, Level::Fail, "Unknown scoreboard objective 'obj'");
}

#[test]
fn execute_initial_render_type() {
    let mut game = Game::new();
    game.execute(&add_objective("obj", None));
    assert_eq!(game.objective_render_type("obj"), Some(RenderType::Integer));
}

#[test]
fn execute_scoreboard_objectives_modify_render_type() {
    let modify = Command::Scoreboard(Scoreboard::Objectives(Objectives::Modify(
        ObjectivesModify {
            objective: String::from("obj"),
            modification: Modification::RenderType(RenderType::Hearts),
        },
    )));
    let mut game = Game::new();
    game.execute(&add_objective("obj", Some("display name")));
    game.execute(&modify);
    assert_eq!(game.objective_render_type("obj"), Some(RenderType::Hearts));
    assert_log(
        &game,
        1,
        Level::Info,
        "Changed objective [display name] render type",
    );
}

#[test]
fn execute_scoreboard_objectives_modify_render_type_no_objective() {
    let modify = Command::Scoreboard(Scoreboard::Objectives(Objectives::Modify(
        ObjectivesModify {
            objective: String::from("obj"),
            modification: Modification::RenderType(RenderType::Integer),
        },
    )));
    let mut game = Game::new();
    game.execute(&modify);
    assert_log(&game, 0, Level::Fail, "Unknown scoreboard objective 'obj'");
}

#[test]
fn execute_scoreboard_objectives_modify_render_type_no_change() {
    let modify = Command::Scoreboard(Scoreboard::Objectives(Objectives::Modify(
        ObjectivesModify {
            objective: String::from("obj"),
            modification: Modification::RenderType(RenderType::Integer),
        },
    )));
    let mut game = Game::new();
    game.execute(&add_objective("obj", Some("display name")));
    game.execute(&modify);
    assert_eq!(game.log_len(), 1);
}

#[test]
fn execute_scoreboard_objectives_set_display() {
    let set_display = Command::Scoreboard(Scoreboard::Objectives(Objectives::SetDisplay(
        ObjectivesSetDisplay {
            slot: DisplaySlot::Sidebar,
            objective: String::from("obj"),
        },
    )));
    let mut game = Game::new();
    game.execute(&add_objective("obj", Some("display name")));
    game.execute(&set_display);
    assert_eq!(
        game.display_slot(DisplaySlot::Sidebar),
        Some(String::from("obj"))
    );
    assert_log(
        &game,
        1,
        Level::Info,
        "Set display slot sidebar to show objective display name",
    );
}

#[test]
fn execute_scoreboard_objectives_set_display_no_objective() {
    let set_display = Command::Scoreboard(Scoreboard::Objectives(Objectives::SetDisplay(
        ObjectivesSetDisplay {
            slot: DisplaySlot::BelowName,
            objective: String::from("obj"),
        },
    )));
    let mut game = Game::new();
    game.execute(&set_display);
    assert_log(&game, 0, Level::Fail, "Unknown scoreboard objective 'obj'");
}

#[test]
fn execute_scoreboard_objectives_set_display_twice() {
    let set_display = Command::Scoreboard(Scoreboard::Objectives(Objectives::SetDisplay(
        ObjectivesSetDisplay {
            slot: DisplaySlot::Sidebar,
            objective: String::from("obj"),
        },
    )));
    let mut game = Game::new();
    game.execute(&add_objective("obj", Some("display name")));
    game.execute(&set_display);
    game.execute(&set_display);
    assert_log(
        &game,
        2,
        Level::Fail,
        "Nothing changed. That display slot is already showing that objective",
    );
}

#[test]
fn execute_add_player_to_game() {
    let mut game = Game::new();
    game.add_player("player1");
    assert!(game.has_player("player1"));
}

#[test]
fn execute_scoreboard_players_add_player_not_ingame() {
    let mut game = Game::new();
    game.add_player("player1");
    game.execute(&add_objective("obj", Some("display name")));
    game.execute(&add_score("player1", "obj", 11));
    assert_eq!(game.score("player1", "obj"), Some(11));
    game.execute(&add_score("player1", "obj", 4));
    assert_eq!(game.score("player1", "obj"), Some(15));
    assert_log(
        &game,
        1,
        Level::Info,
        "Added 11 to [display name] for player1 (now 11)",
    );
    assert_log(
        &game,
        2,
        Level::Info,
        "Added 4 to [display name] for player1 (now 15)",
    );
}

#[test]
fn execute_scoreboard_players_add_nonexistant_objective() {
    let mut game = Game::new();
    game.execute(&add_score("player", "obj", 16));
    assert_log(&game, 0, Level::Fail, "Unknown scoreboard objective 'obj'");
}

#[test]
fn execute_scoreboard_players_remove() {
    let mut game = Game::new();
    game.add_player("player1");
    game.execute(&add_objective("obj", Some("display name")));
    game.execute(&remove_score("player1", "obj", 5));
    assert_eq!(game.score("player1", "obj"), Some(-5));
    game.execute(&remove_score("player1", "obj", 4));
    assert_eq!(game.score("player1", "obj"), Some(-9));
    assert_log(
        &game,
        1,
        Level::Info,
        "Removed 5 from [display name] for player1 (now -5)",
    );
    assert_log(
        &game,
        2,
        Level::Info,
        "Removed 4 from [display name] for player1 (now -9)",
    );
}

#[test]
fn execute_scoreboard_players_remove_nonexistant_objective() {
    let mut game = Game::new();
    game.execute(&remove_score("player", "obj", 16));
    assert_log(&game, 0, Level::Fail, "Unknown scoreboard objective 'obj'");
}

#[test]
fn execute_scoreboard_players_set() {
    let mut game = Game::new();
    game.execute(&add_objective("obj", Some("display name")));
    game.execute(&set_score("player", "obj", -23));
    assert_eq!(game.score("player", "obj"), Some(-23));
    assert_log(
        &game,
        1,
        Level::Info,
        "Set [display name] for player to -23",
    );
}

#[test]
fn scoreboard_players_set_no_objective() {
    let mut game = Game::new();
    game.execute(&set_score("player", "obj", -8564));
    assert_log(&game, 0, Level::Fail, "Unknown scoreboard objective 'obj'");
}

fn operate(game: &mut Game, target_score: i32, source_score: i32, operation: OperationType) {
    game.execute(&add_objective("obj", Some("display name")));
    game.execute(&set_score("target", "obj", target_score));
    game.execute(&set_score("source", "obj", source_score));
    game.execute(&Command::Scoreboard(Scoreboard::Players(
        Players::Operation(PlayersOperation {
            targets: Target::Name(String::from("target")),
            target_objective: String::from("obj"),
            operation,
            source: Target::Name(String::from("source")),
            source_objective: String::from("obj"),
        }),
    )));
}

#[test]
fn execute_scoreboard_players_operation_addition() {
    let mut game = Game::new();
    operate(&mut game, 5, 3, OperationType::Addition);
    assert_eq!(game.score("target", "obj"), Some(8));
    assert_log(&game, 3, Level::Info, "Set [display name] for target to 8");
}

#[test]
fn execute_scoreboard_players_operation_subtraction() {
    let mut game = Game::new();
    operate(&mut game, 6, 2, OperationType::Subtraction);
    assert_eq!(game.score("target", "obj"), Some(4));
    assert_log(&game, 3, Level::Info, "Set [display name] for target to 4");
}

#[test]
fn execute_scoreboard_players_operation_multiplication() {
    let mut game = Game::new();
    operate(&mut game, 3, 4, OperationType::Multiplication);
    assert_eq!(game.score("target", "obj"), Some(12));
    assert_log(&game, 3, Level::Info, "Set [display name] for target to 12");
}

#[test]
fn execute_scoreboard_players_operation_division() {
    let mut game = Game::new();
    operate(&mut game, 14, 3, OperationType::Division);
    assert_eq!(game.score("target", "obj"), Some(4));
    assert_log(&game, 3, Level::Info, "Set [display name] for target to 4");
}

#[test]
fn execute_scoreboard_players_operation_modulus() {
    let mut game = Game::new();
    operate(&mut game, 17, 5, OperationType::Modulus);
    assert_eq!(game.score("target", "obj"), Some(2));
    assert_log(&game, 3, Level::Info, "Set [display name] for target to 2");
}

#[test]
fn execute_scoreboard_players_operation_assign() {
    let mut game = Game::new();
    operate(&mut game, 12, -5, OperationType::Assign);
    assert_eq!(game.score("target", "obj"), Some(-5));
    assert_log(&game, 3, Level::Info, "Set [display name] for target to -5");
}

#[test]
fn execute_scoreboard_players_operation_min_source_less() {
    let mut game = Game::new();
    operate(&mut game, 12, -5, OperationType::Min);
    assert_eq!(game.score("target", "obj"), Some(-5));
    assert_log(&game, 3, Level::Info, "Set [display name] for target to -5");
}

#[test]
fn execute_scoreboard_players_operation_min_source_more() {
    let mut game = Game::new();
    operate(&mut game, 12, 500, OperationType::Min);
    assert_eq!(game.score("target", "obj"), Some(12));
}

#[test]
fn execute_scoreboard_players_operation_max_source_less() {
    let mut game = Game::new();
    operate(&mut game, 12, -5, OperationType::Max);
    assert_eq!(game.score("target", "obj"), Some(12));
    assert_log(&game, 3, Level::Info, "Set [display name] for target to 12");
}

#[test]
fn execute_scoreboard_players_operation_max_source_more() {
    let mut game = Game::new();
    operate(&mut game, 12, 500, OperationType::Max);
    assert_eq!(game.score("target", "obj"), Some(500));
    assert_log(&game, 3, Level::Info, "Set [display name] for target to 500");
}

#[test]
fn execute_scoreboard_players_operation_swap() {
    let mut game = Game::new();
    operate(&mut game, -5, 7, OperationType::Swap);
    assert_eq!(game.score("target", "obj"), Some(7));
    assert_eq!(game.score("source", "obj"), Some(-5));
    assert_log(&game, 3, Level::Info, "Set [display name] for target to 7");
}

#[test]
fn scoreboard_players_operation_no_target_objective() {
    let mut game = Game::new();
    game.execute(&add_objective("sourceObj", None));
    game.execute(&Command::Scoreboard(Scoreboard::Players(
        Players::Operation(PlayersOperation {
            targets: Target::Name("a".to_string()),
            target_objective: "targetObj".to_string(),
            operation: OperationType::Addition,
            source: Target::Name("b".to_string()),
            source_objective: "sourceObj".to_string(),
        }),
    )));
    assert_log(
        &game,
        1,
        Level::Fail,
        "Unknown scoreboard objective 'targetObj'",
    );
}

#[test]
fn scoreboard_players_operation_no_source_objective() {
    let mut game = Game::new();
    game.execute(&add_objective("targetObj", None));
    game.execute(&Command::Scoreboard(Scoreboard::Players(
        Players::Operation(PlayersOperation {
            targets: Target::Name("a".to_string()),
            target_objective: "targetObj".to_string(),
            operation: OperationType::Addition,
            source: Target::Name("b".to_string()),
            source_objective: "sourceObj".to_string(),
        }),
    )));
    assert_log(
        &game,
        1,
        Level::Fail,
        "Unknown scoreboard objective 'sourceObj'",
    );
}

#[test]
fn scoreboard_players_operation_no_objectives() {
    let mut game = Game::new();
    game.execute(&Command::Scoreboard(Scoreboard::Players(
        Players::Operation(PlayersOperation {
            targets: Target::Name("a".to_string()),
            target_objective: "targetObj".to_string(),
            operation: OperationType::Addition,
            source: Target::Name("b".to_string()),
            source_objective: "sourceObj".to_string(),
        }),
    )));
    assert_log(
        &game,
        0,
        Level::Fail,
        "Unknown scoreboard objective 'targetObj'",
    );
}

#[test]
fn execute_function_with_namespace() {
    let datapack = Datapack {
        name: String::from("datapack"),
        functions: vec![Function {
            identifier: FunctionIdentifier {
                namespace: Some(String::from("namespace")),
                name: String::from("func"),
            },
            commands: vec![
                add_objective("obj", None),
                add_score("player", "obj", 7),
            ],
        }],
    };
    let mut game = Game::from(Some(datapack));
    game.execute(&Command::Function(FunctionIdentifier {
        namespace: Some(String::from("namespace")),
        name: String::from("func"),
    }));
    assert_eq!(game.score("player", "obj"), Some(7));
}

fn compare_match(game: &mut Game, start_score: i32, new_score: i32, interval: Interval) {
    game.execute(&add_objective("obj", None));
    game.execute(&set_score("player", "obj", start_score));
    game.execute(&Command::Execute(Execute::If(If::Score(Score::Matches(
        RangeComparison {
            target: Target::Name(String::from("player")),
            target_objective: String::from("obj"),
            interval,
            command: Box::new(set_score("player", "obj", new_score)),
        },
    )))));
}

#[test]
fn execute_execute_if_score_matches_value_no_match() {
    let mut game = Game::new();
    compare_match(&mut game, 7, 8, Interval::Value(-55));
    assert_eq!(game.score("player", "obj"), Some(7));
}

#[test]
fn execute_execute_if_score_matches_value_matches() {
    let mut game = Game::new();
    compare_match(&mut game, 7, 8, Interval::Value(7));
    assert_eq!(game.score("player", "obj"), Some(8));
}

#[test]
fn execute_execute_if_score_matches_bounded_range_min() {
    let mut game = Game::new();
    compare_match(&mut game, -3, 7, Interval::Bounded(-3, 5));
    assert_eq!(game.score("player", "obj"), Some(7));
}

#[test]
fn execute_execute_if_score_matches_bounded_range_max() {
    let mut game = Game::new();
    compare_match(&mut game, 5, 7, Interval::Bounded(-3, 5));
    assert_eq!(game.score("player", "obj"), Some(7));
}

#[test]
fn execute_execute_if_score_matches_bounded_range_middle() {
    let mut game = Game::new();
    compare_match(&mut game, 0, 7, Interval::Bounded(-3, 5));
    assert_eq!(game.score("player", "obj"), Some(7));
}

#[test]
fn execute_execute_if_score_matches_bounded_range_not_in_range() {
    let mut game = Game::new();
    compare_match(&mut game, -20, 7, Interval::Bounded(-3, 5));
    assert_eq!(game.score("player", "obj"), Some(-20));
}

#[test]
fn execute_if_matches_no_objective() {
    let mut game = Game::new();
    game.execute(&Command::Execute(Execute::If(If::Score(Score::Matches(
        RangeComparison {
            target: Target::Name(String::from("player")),
            target_objective: String::from("obj"),
            interval: Interval::Value(5),
            command: Box::new(Command::Scoreboard(Scoreboard::Objectives(
                Objectives::List,
            ))),
        },
    )))));
    assert_log(&game, 0, Level::Fail, "Unknown scoreboard objective 'obj'");
}

#[test]
fn execute_if_matches_no_player() {
    let mut game = Game::new();
    game.execute(&add_objective("obj", None));
    game.execute(&Command::Execute(Execute::If(If::Score(Score::Matches(
        RangeComparison {
            target: Target::Name(String::from("player")),
            target_objective: String::from("obj"),
            interval: Interval::Value(0),
            command: Box::new(set_score("player", "obj", 10)),
        },
    )))));
    assert_eq!(game.score("player", "obj"), None);
}

#[test]
fn tellraw() {
    let mut game = Game::new();
    game.execute(&Command::Tellraw(Tellraw {
        target: Target::Name("player".to_string()),
        message: "it's a message!".to_string(),
    }));
    assert_eq!(game.chat_len(), 1);
    assert_eq!(game.chat_at(0).message, "it's a message!");
    assert!(game.chat_at(0).players.is_empty());
}
