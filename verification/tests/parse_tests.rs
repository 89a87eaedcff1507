use minecraft::parse::parse_line;
use minecraft::{
    Command, Criteria, DisplaySlot, Execute, FunctionIdentifier, If, Modification, Objectives,
    ObjectivesAdd, ObjectivesModify, ObjectivesRemove, ObjectivesSetDisplay, OperationType,
    Players, PlayersAdd, PlayersEnable, PlayersGet, PlayersList, PlayersOperation, PlayersRemove,
    PlayersReset, PlayersSet, RenderType, Score, Scoreboard, SourceComparison, Target,
};

#[test]
fn scoreboard_objectives_add() {
    assert_eq!(
        parse_line("scoreboard objectives add obj dummy"),
        Ok(Command::Scoreboard(Scoreboard::Objectives(
            Objectives::Add(ObjectivesAdd {
                objective: "obj".to_string(),
                criteria: Criteria::Dummy,
                display_name: None,
            })
        )))
    );
    assert_eq!(
        parse_line("scoreboard objectives add obj_2 dummy \"display name 2\""),
        Ok(Command::Scoreboard(Scoreboard::Objectives(
            Objectives::Add(ObjectivesAdd {
                objective: "obj_2".to_string(),
                criteria: Criteria::Dummy,
                display_name: Some("display name 2".to_string()),
            })
        )))
    );
}

#[test]
fn parse_scoreboard_objectives_list() {
    assert_eq!(
        parse_line("scoreboard objectives list"),
        Ok(Command::Scoreboard(Scoreboard::Objectives(
            Objectives::List
        )))
    )
}

#[test]
fn scoreboard_objectives_modify() {
    assert_eq!(
        parse_line("scoreboard objectives modify obj displayname \"new name\""),
        Ok(Command::Scoreboard(Scoreboard::Objectives(
            Objectives::Modify(ObjectivesModify {
                objective: "obj".to_string(),
                modification: Modification::DisplayName("new name".to_string())
            })
        )))
    );
    assert_eq!(
        parse_line("scoreboard objectives modify obj rendertype hearts"),
        Ok(Command::Scoreboard(Scoreboard::Objectives(
            Objectives::Modify(ObjectivesModify {
                objective: "obj".to_string(),
                modification: Modification::RenderType(RenderType::Hearts)
            })
        )))
    );
    assert_eq!(
        parse_line("scoreboard objectives modify obj rendertype integer"),
        Ok(Command::Scoreboard(Scoreboard::Objectives(
            Objectives::Modify(ObjectivesModify {
                objective: "obj".to_string(),
                modification: Modification::RenderType(RenderType::Integer)
            })
        )))
    )
}

#[test]
fn parse_scoreboard_objectives_remove() {
    assert_eq!(
        parse_line("scoreboard objectives remove obj"),
        Ok(Command::Scoreboard(Scoreboard::Objectives(
            Objectives::Remove(ObjectivesRemove {
                objective: "obj".to_string(),
            })
        )))
    )
}

#[test]
fn scoreboard_objectives_setdisplay() {
    assert_eq!(
        parse_line("scoreboard objectives setdisplay belowName obj"),
        Ok(Command::Scoreboard(Scoreboard::Objectives(
            Objectives::SetDisplay(ObjectivesSetDisplay {
                slot: DisplaySlot::BelowName,
                objective: "obj".to_string()
            })
        )))
    );
    assert_eq!(
        parse_line("scoreboard objectives setdisplay list obj"),
        Ok(Command::Scoreboard(Scoreboard::Objectives(
            Objectives::SetDisplay(ObjectivesSetDisplay {
                slot: DisplaySlot::List,
                objective: "obj".to_string()
            })
        )))
    );
    assert_eq!(
        parse_line("scoreboard objectives setdisplay sidebar obj"),
        Ok(Command::Scoreboard(Scoreboard::Objectives(
            Objectives::SetDisplay(ObjectivesSetDisplay {
                slot: DisplaySlot::Sidebar,
                objective: "obj".to_string()
            })
        )))
    );
}

#[test]
fn parse_scoreboard_players_add() {
    assert_eq!(
        parse_line("scoreboard players add target obj 10958"),
        Ok(Command::Scoreboard(Scoreboard::Players(Players::Add(
            PlayersAdd {
                targets: Target::Name("target".to_string()),
                objective: "obj".to_string(),
                score: 10958
            }
        ))))
    );
    assert_eq!(
        parse_line("scoreboard players add target obj 0"),
        Ok(Command::Scoreboard(Scoreboard::Players(Players::Add(
            PlayersAdd {
                targets: Target::Name("target".to_string()),
                objective: "obj".to_string(),
                score: 0
            }
        ))))
    );
    assert_eq!(
        parse_line("scoreboard players add target obj 2147483647"),
        Ok(Command::Scoreboard(Scoreboard::Players(Players::Add(
            PlayersAdd {
                targets: Target::Name("target".to_string()),
                objective: "obj".to_string(),
                score: 2147483647
            }
        ))))
    );
}

#[test]
fn parse_scoreboard_players_enable() {
    assert_eq!(
        parse_line("scoreboard players enable target obj"),
        Ok(Command::Scoreboard(Scoreboard::Players(Players::Enable(
            PlayersEnable {
                targets: Target::Name("target".to_string()),
                objective: "obj".to_string()
            }
        ))))
    );
}

#[test]
fn parse_scoreboard_players_get() {
    assert_eq!(
        parse_line("scoreboard players get target obj"),
        Ok(Command::Scoreboard(Scoreboard::Players(Players::Get(
            PlayersGet {
                target: Target::Name("target".to_string()),
                objective: "obj".to_string()
            }
        ))))
    )
}

#[test]
fn scoreboard_players_list() {
    assert_eq!(
        parse_line("scoreboard players list"),
        Ok(Command::Scoreboard(Scoreboard::Players(Players::List(
            PlayersList { target: None }
        ))))
    );
    assert_eq!(
        parse_line("scoreboard players list target"),
        Ok(Command::Scoreboard(Scoreboard::Players(Players::List(
            PlayersList {
                target: Some(Target::Name("target".to_string()))
            }
        ))))
    )
}

#[test]
fn parse_scoreboard_players_operation() {
    let operation = |op: OperationType| {
        Ok(Command::Scoreboard(Scoreboard::Players(
            Players::Operation(PlayersOperation {
                targets: Target::Name("target".to_string()),
                target_objective: "targetObj".to_string(),
                operation: op,
                source: Target::Name("source".to_string()),
                source_objective: "sourceObj".to_string(),
            }),
        )))
    };
    assert_eq!(
        parse_line("scoreboard players operation target targetObj += source sourceObj"),
        operation(OperationType::Addition)
    );
    assert_eq!(
        parse_line("scoreboard players operation target targetObj -= source sourceObj"),
        operation(OperationType::Subtraction)
    );
    assert_eq!(
        parse_line("scoreboard players operation target targetObj *= source sourceObj"),
        operation(OperationType::Multiplication)
    );
    assert_eq!(
        parse_line("scoreboard players operation target targetObj /= source sourceObj"),
        operation(OperationType::Division)
    );
    assert_eq!(
        parse_line("scoreboard players operation target targetObj %= source sourceObj"),
        operation(OperationType::Modulus)
    );
    assert_eq!(
        parse_line("scoreboard players operation target targetObj = source sourceObj"),
        operation(OperationType::Assign)
    );
    assert_eq!(
        parse_line("scoreboard players operation target targetObj < source sourceObj"),
        operation(OperationType::Min)
    );
    assert_eq!(
        parse_line("scoreboard players operation target targetObj > source sourceObj"),
        operation(OperationType::Max)
    );
    assert_eq!(
        parse_line("scoreboard players operation target targetObj >< source sourceObj"),
        operation(OperationType::Swap)
    );
}

#[test]
fn parse_scoreboard_players_remove() {
    assert_eq!(
        parse_line("scoreboard players remove target targetObj 0"),
        Ok(Command::Scoreboard(Scoreboard::Players(Players::Remove(
            PlayersRemove {
                targets: Target::Name("target".to_string()),
                objective: "targetObj".to_string(),
                score: 0
            }
        ))))
    );
    assert_eq!(
        parse_line("scoreboard players remove target targetObj 1487"),
        Ok(Command::Scoreboard(Scoreboard::Players(Players::Remove(
            PlayersRemove {
                targets: Target::Name("target".to_string()),
                objective: "targetObj".to_string(),
                score: 1487
            }
        ))))
    );
    assert_eq!(
        parse_line("scoreboard players remove target targetObj 2147483647"),
        Ok(Command::Scoreboard(Scoreboard::Players(Players::Remove(
            PlayersRemove {
                targets: Target::Name("target".to_string()),
                objective: "targetObj".to_string(),
                score: 2147483647
            }
        ))))
    );
}

#[test]
fn parse_scoreboard_players_reset() {
    assert_eq!(
        parse_line("scoreboard players reset target obj"),
        Ok(Command::Scoreboard(Scoreboard::Players(Players::Reset(
            PlayersReset {
                targets: Target::Name("target".to_string()),
                objective: "obj".to_string()
            }
        ))))
    )
}

#[test]
fn parse_scoreboard_players_set() {
    assert_eq!(
        parse_line("scoreboard players set target obj 1487"),
        Ok(Command::Scoreboard(Scoreboard::Players(Players::SetScore(
            PlayersSet {
                targets: Target::Name("target".to_string()),
                objective: "obj".to_string(),
                score: 1487
            }
        ))))
    );
    assert_eq!(
        parse_line("scoreboard players set target obj -8700"),
        Ok(Command::Scoreboard(Scoreboard::Players(Players::SetScore(
            PlayersSet {
                targets: Target::Name("target".to_string()),
                objective: "obj".to_string(),
                score: -8700
            }
        ))))
    )
}

#[test]
fn function() {
    assert_eq!(
        parse_line("function name_space:func_name"),
        Ok(Command::Function(FunctionIdentifier {
            namespace: Some("name_space".to_string()),
            name: "func_name".to_string()
        }))
    );
    assert_eq!(
        parse_line("function func_name"),
        Ok(Command::Function(FunctionIdentifier {
            namespace: None,
            name: "func_name".to_string()
        }))
    )
}

#[test]
fn execute() {
    assert_eq!(
        parse_line(
            "execute if score target targetObj < source sourceObj run scoreboard objectives list"
        ),
        Ok(execute_if_score(Score::Less, "scoreboard objectives list"))
    );
    assert_eq!(
        parse_line(
            "execute if score target targetObj <= source sourceObj run scoreboard objectives add obj dummy"
        ),
        Ok(execute_if_score(
            Score::LessEqual,
            "scoreboard objectives add obj dummy"
        ))
    );
    assert_eq!(
        parse_line(
            "execute if score target targetObj > source sourceObj run scoreboard objectives list"
        ),
        Ok(execute_if_score(Score::Greater, "scoreboard objectives list"))
    );
    assert_eq!(
        parse_line(
            "execute if score target targetObj >= source sourceObj run scoreboard objectives list"
        ),
        Ok(execute_if_score(
            Score::GreaterEqual,
            "scoreboard objectives list"
        ))
    );
    assert_eq!(
        parse_line(
            "execute if score target targetObj = source sourceObj run scoreboard objectives list"
        ),
        Ok(execute_if_score(Score::Equal, "scoreboard objectives list"))
    );
}

fn execute_if_score(
    comparison_type: fn(SourceComparison) -> Score,
    conditional_command: &str,
) -> Command {
    let conditional_command = parse_line(conditional_command).unwrap();
    let comparison = SourceComparison {
        target: Target::Name("target".to_string()),
        target_objective: "targetObj".to_string(),
        source: Target::Name("source".to_string()),
        source_objective: "sourceObj".to_string(),
        command: Box::new(conditional_command),
    };
    Command::Execute(Execute::If(If::Score(comparison_type(comparison))))
}
