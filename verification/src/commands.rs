//! The table of prefix-command groups the bot registers.

use vstd::prelude::*;
use vstd::string::StringExecFns;

verus! {

/// A named group of commands.
pub struct CommandGroup {
    pub name: String,
    pub commands: Vec<String>,
}

/// The registered command groups: currently the utility group alone,
/// with its two commands.
pub fn command_groups() -> (r: Vec<CommandGroup>)
    ensures
        r@.len() == 1,
        r@[0].name@ == "utility"@,
        r@[0].commands@.len() == 2,
        r@[0].commands@[0]@ == "ping"@,
        r@[0].commands@[1]@ == "about"@,
{
    let mut commands: Vec<String> = Vec::new();
    commands.push(String::from_str("ping"));
    commands.push(String::from_str("about"));
    let group = CommandGroup { name: String::from_str("utility"), commands };
    let mut groups: Vec<CommandGroup> = Vec::new();
    groups.push(group);
    groups
}

} // verus!
