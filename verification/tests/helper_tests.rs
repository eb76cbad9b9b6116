use bathbot_cache::commands::command_groups;
use bathbot_cache::context::Context;
use bathbot_cache::game::LoopResult;
use bathbot_cache::invoke::Invoke;
use bathbot_cache::scores::MatchScores;

#[test]
fn match_scores_report_each_team() {
    let scores = MatchScores(3, 5);
    assert_eq!(scores.blue(), 3);
    assert_eq!(scores.red(), 5);
    assert_eq!(scores.difference(), 2);
    assert_eq!(MatchScores(5, 3).difference(), 2);
    assert_eq!(MatchScores(4, 4).difference(), 0);
}

#[test]
fn invoke_names() {
    assert_eq!(Invoke::Command("ping".to_string()).name(), "ping");
    let sub = Invoke::SubCommand { main: "osu".to_string(), sub: "top".to_string() };
    assert_eq!(sub.name(), "osu-top");
    assert_eq!(Invoke::Help(None).name(), "help");
    assert_eq!(Invoke::Help(Some("ping".to_string())).name(), "help");
    assert_eq!(Invoke::FailedHelp("???".to_string()).name(), "help");
    assert_eq!(Invoke::UnrecognisedCommand("pong".to_string()).name(), "pong");
}

#[test]
fn loop_results_are_distinguishable() {
    assert_eq!(LoopResult::Winner(7), LoopResult::Winner(7));
    assert_ne!(LoopResult::Winner(7), LoopResult::Winner(8));
    assert_ne!(LoopResult::Restart, LoopResult::Stop);
}

#[test]
fn command_groups_holds_the_utility_group() {
    let groups = command_groups();
    assert_eq!(groups.len(), 1);
    assert_eq!(groups[0].name, "utility");
    assert_eq!(groups[0].commands, vec!["ping".to_string(), "about".to_string()]);
}

#[test]
fn country_registry() {
    let mut ctx = Context::new();
    assert!(!ctx.contains_country(&"FR".to_string()));
    assert!(ctx.get_country(&"FR".to_string()).is_none());
    ctx.add_country("France".to_string(), "FR".to_string());
    ctx.add_country("Germany".to_string(), "DE".to_string());
    assert!(ctx.contains_country(&"FR".to_string()));
    assert_eq!(ctx.get_country(&"DE".to_string()).unwrap(), "Germany");
    // registering again under the same code replaces the name
    ctx.add_country("Deutschland".to_string(), "DE".to_string());
    assert_eq!(ctx.get_country(&"DE".to_string()).unwrap(), "Deutschland");
    assert!(!ctx.contains_country(&"US".to_string()));
}

#[test]
fn message_registry() {
    let mut ctx = Context::new();
    ctx.store_msg(1);
    ctx.store_msg(2);
    ctx.store_msg(1);
    assert!(ctx.remove_msg(1));
    assert!(!ctx.remove_msg(1));
    assert!(ctx.remove_msg(2));
    ctx.store_msg(3);
    ctx.clear_msgs_to_process();
    assert!(!ctx.remove_msg(3));
}
