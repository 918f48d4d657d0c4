use skillbot::bot::{Config, Handler};
use skillbot::cache::Cache;
use skillbot::input::ModalComponent;
use skillbot::schedule::Schedule;
use skillbot::screen::{ActionRow, Response, TextStyle};
use skillbot::skills::{unsupported_message, Dispatch, DispatchError, Interaction, InteractionKind, SkillRegistry};

fn names(list: &[&str]) -> Vec<String> {
    list.iter().map(|s| s.to_string()).collect()
}

#[test]
fn commands_go_to_the_last_skill_of_their_name() {
    let reg = SkillRegistry::new(&names(&["schedule", "poll", "schedule"]));
    let r = reg.dispatch(&Interaction::Command { name: "schedule".into() }).unwrap();
    assert_eq!(r, Dispatch::Command(2));
    let r = reg.dispatch(&Interaction::Command { name: "poll".into() }).unwrap();
    assert_eq!(r, Dispatch::Command(1));
}

#[test]
fn each_name_registers_one_command() {
    let reg = SkillRegistry::new(&names(&["schedule", "poll", "schedule"]));
    let mut slots = reg.command_skills();
    slots.sort();
    assert_eq!(slots, vec![1, 2]);
    assert_eq!(SkillRegistry::new(&names(&["schedule"])).command_skills(), vec![0]);
}

#[test]
fn unknown_command_is_reported() {
    let reg = SkillRegistry::new(&names(&["schedule"]));
    let err = reg.dispatch(&Interaction::Command { name: "sched".into() }).unwrap_err();
    assert!(matches!(&err, DispatchError::UnknownCommand(n) if n == "sched"));
    assert_eq!(err.message(), "sched is not a registered command");
}

#[test]
fn components_and_modals_go_by_first_route_segment() {
    let reg = SkillRegistry::new(&names(&["schedule", "poll"]));
    let r = reg.dispatch(&Interaction::Component { custom_id: "poll/vote/1".into() }).unwrap();
    assert_eq!(r, Dispatch::Component(1));
    let r = reg.dispatch(&Interaction::Modal { custom_id: "schedule".into() }).unwrap();
    assert_eq!(r, Dispatch::Modal(0));
    let err = reg.dispatch(&Interaction::Component { custom_id: "vote".into() }).unwrap_err();
    assert_eq!(err.message(), "vote is not a registered component");
    let err = reg.dispatch(&Interaction::Modal { custom_id: "x/y".into() }).unwrap_err();
    assert_eq!(err.message(), "x/y is not a registered modal");
    assert_eq!(reg.dispatch(&Interaction::Other).unwrap(), Dispatch::Ignore);
}

#[test]
fn a_name_that_only_begins_the_id_does_not_own_it() {
    let reg = SkillRegistry::new(&names(&["schedule"]));
    assert_eq!(reg.skill_for_id("schedule"), Some(0));
    assert_eq!(reg.skill_for_id("schedule/edit/x"), Some(0));
    assert_eq!(reg.skill_for_id("schedules/x"), None);
    assert_eq!(reg.skill_for_id(""), None);
    assert_eq!(reg.skill_for_id("/schedule"), None);
    let err = reg.dispatch(&Interaction::Component { custom_id: "schedules/x".into() }).unwrap_err();
    assert_eq!(err.message(), "schedules/x is not a registered component");
    let err = reg.dispatch(&Interaction::Modal { custom_id: "schedules/x".into() }).unwrap_err();
    assert_eq!(err.message(), "schedules/x is not a registered modal");
    let both = SkillRegistry::new(&names(&["sched", "schedule"]));
    assert_eq!(both.skill_for_id("schedule/x"), Some(1));
    assert_eq!(both.skill_for_id("sched/x"), Some(0));
}

#[test]
fn unsupported_kinds_name_the_skill() {
    assert_eq!(unsupported_message("poll", InteractionKind::Command), "poll does not support commands");
    assert_eq!(unsupported_message("poll", InteractionKind::Component), "poll does not support components");
    assert_eq!(unsupported_message("poll", InteractionKind::Modal), "poll does not support modals");
}

fn schedule() -> Schedule {
    let mut cache = Cache::new();
    cache.install(".cache").unwrap();
    Schedule::new(&cache)
}

#[test]
fn schedule_owns_its_cache_entry_and_command() {
    let s = schedule();
    assert_eq!(s.cache().name, "schedule");
    assert_eq!(s.cache().loc, ".cache/schedule");
    assert_eq!(s.name(), "schedule");
    let c = s.register();
    assert_eq!(c.name, "schedule");
    assert_eq!(c.description, "Create a new schedule");
}

#[test]
fn schedule_command_prefills_dates_one_and_three_weeks_ahead() {
    // 2024-01-01 is day 738886 counted from 0001-01-01 as day 1.
    match schedule().command(738886) {
        Response::Modal(m) => {
            assert_eq!(m.custom_id, "schedule");
            assert_eq!(m.title, "New Schedule");
            assert_eq!(m.rows.len(), 3);
            let texts: Vec<_> = m
                .rows
                .iter()
                .map(|r| match r {
                    ActionRow::InputText(t) => t,
                    other => panic!("unexpected row {other:?}"),
                })
                .collect();
            assert!(texts.iter().all(|t| t.style == TextStyle::Short));
            assert_eq!(texts[0].label, "Schedule Name");
            assert_eq!(texts[0].custom_id, "name");
            assert_eq!(texts[0].value, None);
            assert_eq!(texts[0].placeholder.as_deref(), Some("e.g. Next D&D session"));
            assert_eq!(texts[1].custom_id, "start_date");
            assert_eq!(texts[1].value.as_deref(), Some("2024-01-08"));
            assert_eq!(texts[2].custom_id, "end_date");
            assert_eq!(texts[2].value.as_deref(), Some("2024-01-22"));
        }
        other => panic!("unexpected response {other:?}"),
    }
}

#[test]
fn schedule_command_at_calendar_ends() {
    let s = schedule();
    match s.command(95745399 - 21) {
        Response::Modal(m) => match &m.rows[2] {
            ActionRow::InputText(t) => assert_eq!(t.value.as_deref(), Some("+262142-12-31")),
            other => panic!("unexpected row {other:?}"),
        },
        other => panic!("unexpected response {other:?}"),
    }
    match s.command(-95746129) {
        Response::Modal(m) => match &m.rows[1] {
            ActionRow::InputText(t) => assert_eq!(t.value.as_deref(), Some("-262143-01-08")),
            other => panic!("unexpected row {other:?}"),
        },
        other => panic!("unexpected response {other:?}"),
    }
}

#[test]
fn schedule_modal_confirms_last_values() {
    let comps = vec![
        ModalComponent::InputText { custom_id: "name".into(), value: Some("D&D".into()) },
        ModalComponent::InputText { custom_id: "start_date".into(), value: Some("2024-01-08".into()) },
        ModalComponent::Other,
        ModalComponent::InputText { custom_id: "end_date".into(), value: None },
        ModalComponent::InputText { custom_id: "name".into(), value: Some("Game night".into()) },
    ];
    match schedule().modal(&comps) {
        Response::Message(m) => {
            assert!(m.ephemeral);
            assert!(m.rows.is_none());
            assert_eq!(m.content.as_deref(), Some("Scheduled **Game night** from 2024-01-08 to "));
        }
        other => panic!("unexpected response {other:?}"),
    }
}

#[test]
fn handler_skips_own_messages() {
    let config = Config {
        bot_token: "t".into(),
        logging_channel: "1".into(),
        guild_id: None,
        cache_loc: ".cache".into(),
    };
    let _handler = Handler::from_config(&config);
    assert!(Handler::should_log(None, 5));
    assert!(Handler::should_log(Some(4), 5));
    assert!(!Handler::should_log(Some(5), 5));
    assert_eq!(Handler::ready_message("bot"), "bot is connected!");
}
