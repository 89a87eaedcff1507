use minecraft::execute::{Datapack, Game, Level};
use minecraft::lower::lower;
use minecraft::parse::{parse_line, Error, Space};
use minecraft::{
    Command, Criteria, DisplaySlot, Execute, Function, FunctionIdentifier, If, Interval,
    Objectives, ObjectivesAdd, Players, PlayersAdd, RangeComparison, Score, Scoreboard, Selector,
    SelectorVariable, Target,
};

fn assert_log(game: &Game, i: usize, level: Level, message: &str) {
    assert!(i < game.log_len(), "no log line at position {}", i);
    let entry = game.log_at(i);
    assert_eq!(entry.level, level);
    assert_eq!(entry.message, message);
}

fn run(game: &mut Game, line: &str) {
    let command = parse_line(line).unwrap();
    game.execute(&command);
}

#[test]
fn adding_an_existing_objective_changes_nothing() {
    let mut game = Game::new();
    run(&mut game, "scoreboard objectives add obj dummy");
    run(&mut game, "scoreboard objectives add obj dummy");
    assert_eq!(game.log_len(), 2);
    assert_log(&game, 0, Level::Info, "Created new objective [obj]");
    assert_log(
        &game,
        1,
        Level::Fail,
        "An objective already exists by that name",
    );
    assert!(game.has_objective("obj"));
    assert_eq!(game.objective_display_name("obj"), Some("obj".to_string()));
}

#[test]
fn setting_a_score_under_a_missing_objective_fails() {
    let mut game = Game::new();
    run(&mut game, "scoreboard players set p obj 5");
    assert_eq!(game.log_len(), 1);
    assert_log(&game, 0, Level::Fail, "Unknown scoreboard objective 'obj'");
    assert_eq!(game.score("p", "obj"), None);
}

#[test]
fn scores_accumulate_across_additions() {
    let mut game = Game::new();
    run(&mut game, "scoreboard objectives add obj dummy \"Name\"");
    run(&mut game, "scoreboard players add p obj 11");
    run(&mut game, "scoreboard players add p obj 4");
    assert_eq!(game.score("p", "obj"), Some(15));
    assert_log(&game, 1, Level::Info, "Added 11 to [Name] for p (now 11)");
    assert_log(&game, 2, Level::Info, "Added 4 to [Name] for p (now 15)");
}

#[test]
fn operation_max_takes_the_larger_score() {
    let mut game = Game::new();
    run(&mut game, "scoreboard objectives add obj dummy \"Name\"");
    run(&mut game, "scoreboard players set target obj 12");
    run(&mut game, "scoreboard players set source obj 500");
    run(
        &mut game,
        "scoreboard players operation target obj > source obj",
    );
    assert_eq!(game.score("target", "obj"), Some(500));
    assert_eq!(game.score("source", "obj"), Some(500));
    assert_log(&game, 3, Level::Info, "Set [Name] for target to 500");
}

#[test]
fn matches_includes_its_lower_bound() {
    let mut game = Game::new();
    run(&mut game, "scoreboard objectives add obj dummy");
    run(&mut game, "scoreboard players set player obj -3");
    run(
        &mut game,
        "execute if score player obj matches -3..5 run scoreboard players set player obj 7",
    );
    assert_eq!(game.score("player", "obj"), Some(7));
}

#[test]
fn setting_a_display_slot_twice_fails_the_second_time() {
    let mut game = Game::new();
    run(&mut game, "scoreboard objectives add obj dummy");
    run(&mut game, "scoreboard objectives setdisplay sidebar obj");
    run(&mut game, "scoreboard objectives setdisplay sidebar obj");
    assert_log(
        &game,
        2,
        Level::Fail,
        "Nothing changed. That display slot is already showing that objective",
    );
    assert_eq!(
        game.display_slot(DisplaySlot::Sidebar),
        Some("obj".to_string())
    );
}

#[test]
fn addition_wraps_at_the_integer_maximum() {
    let mut game = Game::new();
    run(&mut game, "scoreboard objectives add obj dummy");
    run(&mut game, "scoreboard players set p obj 2147483647");
    run(&mut game, "scoreboard players add p obj 1");
    assert_eq!(game.score("p", "obj"), Some(i32::MIN));
    assert_log(
        &game,
        2,
        Level::Info,
        "Added 1 to [obj] for p (now -2147483648)",
    );
}

#[test]
fn removal_wraps_at_the_integer_minimum() {
    let mut game = Game::new();
    run(&mut game, "scoreboard objectives add obj dummy");
    run(&mut game, "scoreboard players set p obj -2147483648");
    run(&mut game, "scoreboard players remove p obj 1");
    assert_eq!(game.score("p", "obj"), Some(i32::MAX));
}

#[test]
fn dividing_by_zero_fails_and_changes_nothing() {
    let mut game = Game::new();
    run(&mut game, "scoreboard objectives add obj dummy");
    run(&mut game, "scoreboard players set target obj 10");
    run(&mut game, "scoreboard players set source obj 0");
    run(
        &mut game,
        "scoreboard players operation target obj /= source obj",
    );
    assert_log(&game, 3, Level::Fail, "Cannot divide by zero");
    assert_eq!(game.score("target", "obj"), Some(10));
}

#[test]
fn division_truncates_toward_zero() {
    let mut game = Game::new();
    run(&mut game, "scoreboard objectives add obj dummy");
    run(&mut game, "scoreboard players set target obj -7");
    run(&mut game, "scoreboard players set source obj 2");
    run(
        &mut game,
        "scoreboard players operation target obj /= source obj",
    );
    assert_eq!(game.score("target", "obj"), Some(-3));
}

#[test]
fn unsupported_player_subcommands_log_a_failure() {
    let mut game = Game::new();
    run(&mut game, "scoreboard players enable p obj");
    assert_log(&game, 0, Level::Fail, "Unsupported command");
}

#[test]
fn selector_targets_log_a_failure() {
    let mut game = Game::new();
    run(&mut game, "scoreboard objectives add obj dummy");
    run(&mut game, "scoreboard players add @a obj 3");
    assert_log(&game, 1, Level::Fail, "Unsupported target");
}

#[test]
fn unknown_functions_fail_recoverably() {
    let mut game = Game::new();
    run(&mut game, "function ns:missing");
    assert_log(&game, 0, Level::Fail, "Unknown function 'ns:missing'");
    run(&mut game, "scoreboard objectives add obj dummy");
    assert!(game.has_objective("obj"));
}

#[test]
fn self_recursive_functions_stop_at_the_depth_limit() {
    let datapack = Datapack {
        name: "loop_pack".to_string(),
        functions: vec![Function {
            identifier: FunctionIdentifier {
                namespace: None,
                name: "again".to_string(),
            },
            commands: vec![Command::Function(FunctionIdentifier {
                namespace: None,
                name: "again".to_string(),
            })],
        }],
    };
    let mut game = Game::from(Some(datapack));
    run(&mut game, "function again");
    assert_eq!(game.log_len(), 1);
    assert_log(&game, 0, Level::Fail, "Function call depth limit exceeded");
}

#[test]
fn parse_reports_whitespace_where_a_symbol_was_expected() {
    assert_eq!(
        parse_line("scoreboard objectives add obj dummy  \"x\""),
        Err(Error::Space(Space::WhitespaceInstead))
    );
}

#[test]
fn parse_reports_a_wrong_symbol() {
    assert_eq!(
        parse_line("scoreboard/objectives list"),
        Err(Error::Space(Space::SymbolInstead))
    );
}

#[test]
fn parse_reports_a_line_that_ends_too_early() {
    assert_eq!(
        parse_line("scoreboard"),
        Err(Error::Space(Space::EOFInstead))
    );
}

#[test]
fn parse_reports_unknown_keywords() {
    assert_eq!(
        parse_line("scoreboard objective list"),
        Err(Error::UnknownKeyword)
    );
    assert_eq!(parse_line("advancement grant"), Err(Error::UnknownKeyword));
}

#[test]
fn parse_reports_numbers_out_of_range() {
    assert_eq!(
        parse_line("scoreboard players add p obj 2147483648"),
        Err(Error::InvalidInteger)
    );
    assert_eq!(
        parse_line("scoreboard players set p obj -2147483649"),
        Err(Error::InvalidInteger)
    );
    assert_eq!(
        parse_line("scoreboard players add p obj x"),
        Err(Error::InvalidInteger)
    );
}

#[test]
fn parse_accepts_the_integer_limits() {
    match parse_line("scoreboard players set p obj -2147483648") {
        Ok(Command::Scoreboard(Scoreboard::Players(Players::SetScore(s)))) => {
            assert_eq!(s.score, i32::MIN);
        }
        other => panic!("unexpected parse result: {:?}", other),
    }
    match parse_line("scoreboard players set p obj 2147483647") {
        Ok(Command::Scoreboard(Scoreboard::Players(Players::SetScore(s)))) => {
            assert_eq!(s.score, i32::MAX);
        }
        other => panic!("unexpected parse result: {:?}", other),
    }
}

#[test]
fn parse_accepts_selector_targets() {
    match parse_line("scoreboard players add @e obj 3") {
        Ok(Command::Scoreboard(Scoreboard::Players(Players::Add(a)))) => {
            assert_eq!(
                a.targets,
                Target::Selector(Selector {
                    variable: SelectorVariable::E
                })
            );
        }
        other => panic!("unexpected parse result: {:?}", other),
    }
}

#[test]
fn parse_accepts_matches_intervals() {
    let intervals = [
        ("-3..5", Interval::Bounded(-3, 5)),
        ("..7", Interval::LeftUnbounded(7)),
        ("4..", Interval::RightUnbounded(4)),
        ("-23", Interval::Value(-23)),
    ];
    for (text, expected) in intervals {
        let line = format!(
            "execute if score p obj matches {} run scoreboard objectives list",
            text
        );
        match parse_line(&line) {
            Ok(Command::Execute(Execute::If(If::Score(Score::Matches(rc))))) => {
                assert_eq!(rc.interval, expected);
            }
            other => panic!("unexpected parse result: {:?}", other),
        }
    }
}

#[test]
fn lowering_then_parsing_returns_the_command() {
    let lines = [
        "scoreboard objectives add obj dummy",
        "scoreboard objectives add obj dummy \"display name\"",
        "scoreboard objectives list",
        "scoreboard objectives modify obj displayname \"x y z\"",
        "scoreboard objectives modify obj rendertype hearts",
        "scoreboard objectives setdisplay belowName obj",
        "scoreboard players add @a obj 17",
        "scoreboard players list",
        "scoreboard players list @r",
        "scoreboard players operation target tObj >< source sObj",
        "scoreboard players set p obj -2147483648",
        "function ns:f",
        "function f",
        "execute if score p obj matches -3..5 run scoreboard players set p obj 7",
        "execute if score a aObj >= b bObj run function ns:f",
    ];
    for line in lines {
        let command = parse_line(line).unwrap();
        assert_eq!(lower(command), line.to_string());
        let reparsed = parse_line(&lower(parse_line(line).unwrap())).unwrap();
        assert_eq!(reparsed, parse_line(line).unwrap());
    }
}

#[test]
fn modifying_a_display_name_twice_logs_once() {
    let mut game = Game::new();
    run(&mut game, "scoreboard objectives add obj dummy \"old\"");
    run(
        &mut game,
        "scoreboard objectives modify obj displayname \"new\"",
    );
    run(
        &mut game,
        "scoreboard objectives modify obj displayname \"new\"",
    );
    assert_eq!(game.log_len(), 2);
    assert_eq!(game.objective_display_name("obj"), Some("new".to_string()));
}

#[test]
fn nested_execute_conditions_run_the_innermost_command() {
    let mut game = Game::new();
    run(&mut game, "scoreboard objectives add obj dummy");
    run(&mut game, "scoreboard players set p obj 1");
    run(
        &mut game,
        "execute if score p obj matches 1 run execute if score p obj matches 0..2 run scoreboard players set p obj 9",
    );
    assert_eq!(game.score("p", "obj"), Some(9));
}

#[test]
fn functions_resolve_by_exact_identifier() {
    let command = |line: &str| parse_line(line).unwrap();
    let datapack = Datapack {
        name: "pack".to_string(),
        functions: vec![
            Function {
                identifier: FunctionIdentifier {
                    namespace: Some("other".to_string()),
                    name: "setup".to_string(),
                },
                commands: vec![command("scoreboard objectives add wrong dummy")],
            },
            Function {
                identifier: FunctionIdentifier {
                    namespace: Some("pack".to_string()),
                    name: "setup".to_string(),
                },
                commands: vec![
                    command("scoreboard objectives add obj dummy"),
                    command("scoreboard players set p obj 3"),
                ],
            },
        ],
    };
    let mut game = Game::from(Some(datapack));
    run(&mut game, "function pack:setup");
    assert!(!game.has_objective("wrong"));
    assert_eq!(game.score("p", "obj"), Some(3));
}

#[test]
fn objective_creation_does_not_register_players() {
    let mut game = Game::new();
    game.execute(&Command::Scoreboard(Scoreboard::Objectives(
        Objectives::Add(ObjectivesAdd {
            objective: "obj".to_string(),
            criteria: Criteria::Dummy,
            display_name: None,
        }),
    )));
    game.execute(&Command::Scoreboard(Scoreboard::Players(Players::Add(
        PlayersAdd {
            targets: Target::Name("ghostwriter".to_string()),
            objective: "obj".to_string(),
            score: 2,
        },
    ))));
    assert_eq!(game.score("ghostwriter", "obj"), Some(2));
    assert!(!game.has_player("ghostwriter"));
}

#[test]
fn empty_display_names_round_trip() {
    let line = "scoreboard objectives add obj dummy \"\"";
    let command = parse_line(line).unwrap();
    assert_eq!(
        command,
        Command::Scoreboard(Scoreboard::Objectives(Objectives::Add(ObjectivesAdd {
            objective: "obj".to_string(),
            criteria: Criteria::Dummy,
            display_name: Some(String::new()),
        })))
    );
    assert_eq!(lower(command), line.to_string());
}

#[test]
fn tellraw_lowers_to_a_quoted_message() {
    let command = Command::Tellraw(minecraft::Tellraw {
        target: Target::Name("p".to_string()),
        message: "hello there".to_string(),
    });
    assert_eq!(lower(command), "tellraw p \"hello there\"".to_string());
}

#[test]
fn modulus_keeps_the_sign_of_the_dividend() {
    let mut game = Game::new();
    run(&mut game, "scoreboard objectives add obj dummy");
    run(&mut game, "scoreboard players set target obj -17");
    run(&mut game, "scoreboard players set source obj 5");
    run(
        &mut game,
        "scoreboard players operation target obj %= source obj",
    );
    assert_eq!(game.score("target", "obj"), Some(-2));
}

#[test]
fn division_overflow_wraps() {
    let mut game = Game::new();
    run(&mut game, "scoreboard objectives add obj dummy");
    run(&mut game, "scoreboard players set target obj -2147483648");
    run(&mut game, "scoreboard players set source obj -1");
    run(
        &mut game,
        "scoreboard players operation target obj /= source obj",
    );
    assert_eq!(game.score("target", "obj"), Some(i32::MIN));
}

#[test]
fn self_operation_reads_before_writing() {
    let mut game = Game::new();
    run(&mut game, "scoreboard objectives add obj dummy");
    run(&mut game, "scoreboard players set p obj 6");
    run(&mut game, "scoreboard players operation p obj += p obj");
    // The target's doubled value is written first, then the source entry is
    // written back over it, as the interpreter writes target before source.
    assert_eq!(game.score("p", "obj"), Some(6));
    assert_log(&game, 2, Level::Info, "Set [obj] for p to 6");
}

#[test]
fn parse_rejects_empty_names() {
    assert_eq!(
        parse_line("scoreboard objectives remove "),
        Err(Error::Identifier(None))
    );
    assert_eq!(
        parse_line("scoreboard objectives add  dummy"),
        Err(Error::Identifier(Some(' ')))
    );
    assert_eq!(parse_line(""), Err(Error::Identifier(None)));
    assert_eq!(
        parse_line("scoreboard players list "),
        Err(Error::Identifier(None))
    );
    assert_eq!(
        parse_line("scoreboard players set  obj 5"),
        Err(Error::Identifier(Some(' ')))
    );
}

#[test]
fn parse_rejects_text_after_the_command() {
    assert_eq!(
        parse_line("scoreboard objectives list extra"),
        Err(Error::Trailing(' '))
    );
    assert_eq!(
        parse_line("scoreboard players get p obj!"),
        Err(Error::Trailing('!'))
    );
}
