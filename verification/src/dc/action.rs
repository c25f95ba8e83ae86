//! The actions of the DC helper.
use vstd::prelude::*;

use crate::text::same;

verus! {

/// What the helper can be asked to do.
#[derive(Debug, Clone, Copy, PartialEq, Eq, Structural)]
pub enum Action {
    Dashboard,
    CheckUpdates,
    AutoUpdate,
    Backup,
}

/// The action that a word names.
pub open spec fn action_named(word: Seq<char>) -> Option<Action> {
    if word == "dashboard"@ {
        Some(Action::Dashboard)
    } else if word == "check_updates"@ {
        Some(Action::CheckUpdates)
    } else if word == "auto_update"@ {
        Some(Action::AutoUpdate)
    } else if word == "backup"@ {
        Some(Action::Backup)
    } else {
        None
    }
}

/// The word that names an action.
pub open spec fn word_for(action: Action) -> Seq<char> {
    match action {
        Action::Dashboard => "dashboard"@,
        Action::CheckUpdates => "check_updates"@,
        Action::AutoUpdate => "auto_update"@,
        Action::Backup => "backup"@,
    }
}

/// The label of what a word names.
pub open spec fn label_for(word: Seq<char>) -> Seq<char> {
    match action_named(word) {
        Some(Action::Dashboard) => "容器选择"@,
        Some(Action::CheckUpdates) => "检查更新"@,
        Some(Action::AutoUpdate) => "自动更新"@,
        Some(Action::Backup) => "备份容器配置"@,
        None => "未知动作"@,
    }
}

/// The action that `word` names, where it names one.
fn find_action(word: &str) -> (r: Option<Action>)
    ensures
        r == action_named(word@),
{
    if same(word, "dashboard") {
        Some(Action::Dashboard)
    } else if same(word, "check_updates") {
        Some(Action::CheckUpdates)
    } else if same(word, "auto_update") {
        Some(Action::AutoUpdate)
    } else if same(word, "backup") {
        Some(Action::Backup)
    } else {
        None
    }
}

/// The action that a word names, or an error that quotes it.
pub open spec fn action_or_error(word: Seq<char>) -> Result<Action, Seq<char>> {
    match action_named(word) {
        Some(action) => Ok(action),
        None => Err("不支持的 DC 助手动作: "@ + word),
    }
}

/// The action that `word` names, or an error that quotes it.
pub fn parse_action(word: &str) -> (r: Result<Action, String>)
    ensures
        match r {
            Ok(action) => action_or_error(word@) == Ok::<Action, Seq<char>>(action),
            Err(error) => action_or_error(word@) == Err::<Action, Seq<char>>(error@),
        },
{
    match find_action(word) {
        Some(action) => Ok(action),
        None => Err("不支持的 DC 助手动作: ".to_owned().concat(word)),
    }
}

/// The label of the action that `action` names.
pub fn action_label(action: &str) -> (r: &'static str)
    ensures
        r@ == label_for(action@),
{
    match find_action(action) {
        Some(Action::Dashboard) => "容器选择",
        Some(Action::CheckUpdates) => "检查更新",
        Some(Action::AutoUpdate) => "自动更新",
        Some(Action::Backup) => "备份容器配置",
        None => "未知动作",
    }
}

/// Each action is named by its own word, and by no other.
pub proof fn law_words_name_actions(word: Seq<char>, action: Action)
    ensures
        action_named(word) == Some(action) <==> word == word_for(action),
{
    reveal_strlit("dashboard");
    reveal_strlit("check_updates");
    reveal_strlit("auto_update");
    reveal_strlit("backup");
    assert("dashboard"@.len() == 9 && "check_updates"@.len() == 13 && "auto_update"@.len() == 11
        && "backup"@.len() == 6);
}

} // verus!
