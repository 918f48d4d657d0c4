//! The schedule skill: a slash command that opens a form for a new
//! schedule, and the confirmation of the submitted form.

use vstd::prelude::*;

use crate::cache::{is_safe, join_spec, kept, lemma_safe_path_of_safe, Cache, CacheContainer};
use crate::input::{last_input_value, lemma_submitted_as_value, submitted_as, ModalComponent};
use crate::screen::{ActionRow, MessageReply, ModalForm, Response, TextInput, TextStyle};
use crate::skills::CommandInfo;
use crate::text::str_eq;

verus! {

/// The first day that the calendar library represents, counted from
/// 0001-01-01 as day 1 (year -262143, January 1).
pub open spec fn first_calendar_day() -> int {
    -95746129
}

/// The last day that the calendar library represents, counted from
/// 0001-01-01 as day 1 (year 262142, December 31).
pub open spec fn last_calendar_day() -> int {
    95745399
}

/// The `%Y-%m-%d` text of a day counted from 0001-01-01 as day 1, as the
/// calendar library writes it.
pub uninterp spec fn iso_date_text(days_from_ce: i32) -> Seq<char>;

/// `chrono::NaiveDate::from_num_days_from_ce_opt` followed by
/// `format("%Y-%m-%d")`: the text is named by `iso_date_text`, and the day
/// must lie in the range the library represents.
#[verifier::external_body]
fn format_iso_date(days_from_ce: i32) -> (s: String)
    requires
        first_calendar_day() <= days_from_ce <= last_calendar_day(),
    ensures
        s@ == iso_date_text(days_from_ce),
{
    match chrono::NaiveDate::from_num_days_from_ce_opt(days_from_ce) {
        Some(date) => date.format("%Y-%m-%d").to_string(),
        None => String::new(),
    }
}

/// The value of a text input that the form may lack: the empty text then.
pub open spec fn or_empty(v: Option<Seq<char>>) -> Seq<char> {
    match v {
        Some(t) => t,
        None => Seq::<char>::empty(),
    }
}

/// `row` is a one-line text input with this label and id, value and
/// placeholder given by their views.
pub open spec fn input_row(
    row: ActionRow,
    label: Seq<char>,
    id: Seq<char>,
    value: Option<Seq<char>>,
    placeholder: Option<Seq<char>>,
) -> bool {
    match row {
        ActionRow::InputText(t) => {
            &&& t.style == TextStyle::Short
            &&& t.label@ == label
            &&& t.custom_id@ == id
            &&& match (t.value, value) {
                (Some(a), Some(b)) => a@ == b,
                (None, None) => true,
                _ => false,
            }
            &&& match (t.placeholder, placeholder) {
                (Some(a), Some(b)) => a@ == b,
                (None, None) => true,
                _ => false,
            }
        },
        _ => false,
    }
}

/// `r` is the "New Schedule" form: a name with a placeholder, then the start
/// and end dates pre-filled with `start` and `end`.
pub open spec fn schedule_form(r: Response, start: Seq<char>, end: Seq<char>) -> bool {
    match r {
        Response::Modal(m) => {
            &&& m.custom_id@ == "schedule"@
            &&& m.title@ == "New Schedule"@
            &&& m.rows@.len() == 3
            &&& input_row(
                m.rows@[0],
                "Schedule Name"@,
                "name"@,
                None,
                Some("e.g. Next D&D session"@),
            )
            &&& input_row(m.rows@[1], "Start Date"@, "start_date"@, Some(start), None)
            &&& input_row(m.rows@[2], "End Date"@, "end_date"@, Some(end), None)
        },
        _ => false,
    }
}

/// The confirmation text for a submitted schedule form.
pub open spec fn scheduled_text(cs: Seq<ModalComponent>) -> Seq<char> {
    "Scheduled **"@ + or_empty(last_input_value(cs, "name"@)) + "** from "@ + or_empty(
        last_input_value(cs, "start_date"@),
    ) + " to "@ + or_empty(last_input_value(cs, "end_date"@))
}

/// The confirmation of a submitted schedule form names the submitted name,
/// start and end: for each of the ids `name`, `start_date` and `end_date`,
/// the value of the last text input with that id, wherever it stands in the
/// submission, or the empty text when there is none.
pub proof fn law_schedule_confirmation(
    cs: Seq<ModalComponent>,
    name: Seq<char>,
    start: Seq<char>,
    end: Seq<char>,
)
    requires
        submitted_as(cs, "name"@, name),
        submitted_as(cs, "start_date"@, start),
        submitted_as(cs, "end_date"@, end),
    ensures
        scheduled_text(cs) == "Scheduled **"@ + name + "** from "@ + start + " to "@ + end,
{
    lemma_submitted_as_value(cs, "name"@, name);
    lemma_submitted_as_value(cs, "start_date"@, start);
    lemma_submitted_as_value(cs, "end_date"@, end);
}

/// `v` holds exactly the text `t`.
pub open spec fn holds_text(v: Option<String>, t: Seq<char>) -> bool {
    match v {
        Some(s) => s@ == t,
        None => false,
    }
}

/// The "New Schedule" form asks for the name, then the start and the end;
/// each input is labelled for what its id collects: `name` is "Schedule
/// Name" and starts empty with a hint, `start_date` is "Start Date" holding
/// the start, `end_date` is "End Date" holding the end. All are one line.
pub proof fn law_schedule_form_fields(r: Response, start: Seq<char>, end: Seq<char>)
    requires
        schedule_form(r, start, end),
    ensures
        r matches Response::Modal(m) && {
            &&& m.custom_id@ == "schedule"@
            &&& m.title@ == "New Schedule"@
            &&& m.rows@.len() == 3
            &&& forall|i: int|
                0 <= i < 3 ==> (#[trigger] m.rows@[i] matches ActionRow::InputText(t) ==> {
                    &&& t.style == TextStyle::Short
                    &&& t.custom_id@ == "name"@ ==> t.label@ == "Schedule Name"@ && t.value is None
                    &&& t.custom_id@ == "start_date"@ ==> t.label@ == "Start Date"@ && holds_text(
                        t.value,
                        start,
                    )
                    &&& t.custom_id@ == "end_date"@ ==> t.label@ == "End Date"@ && holds_text(
                        t.value,
                        end,
                    )
                })
            &&& forall|i: int| 0 <= i < 3 ==> (#[trigger] m.rows@[i] is InputText)
            &&& m.rows@[0]->InputText_0.custom_id@ == "name"@
            &&& m.rows@[1]->InputText_0.custom_id@ == "start_date"@
            &&& m.rows@[2]->InputText_0.custom_id@ == "end_date"@
        },
{
    reveal_strlit("name");
    reveal_strlit("start_date");
    reveal_strlit("end_date");
    assert("name"@.len() == 4);
    assert("start_date"@.len() == 10);
    assert("end_date"@.len() == 8);
    assert("start_date"@[0] != "end_date"@[0]);
    let m = r->Modal_0;
    assert forall|i: int| 0 <= i < 3 implies (#[trigger] m.rows@[i] matches ActionRow::InputText(t)
        ==> {
        &&& t.style == TextStyle::Short
        &&& t.custom_id@ == "name"@ ==> t.label@ == "Schedule Name"@ && t.value is None
        &&& t.custom_id@ == "start_date"@ ==> t.label@ == "Start Date"@ && holds_text(t.value, start)
        &&& t.custom_id@ == "end_date"@ ==> t.label@ == "End Date"@ && holds_text(t.value, end)
    }) by {
        if i == 0 {
        } else if i == 1 {
        } else {
        }
    }
}

/// The schedule skill and the cache entry it owns.
#[derive(Debug)]
pub struct Schedule {
    cache: CacheContainer,
}

/// A one-line text input row.
fn short_input(label: &str, id: &str, value: Option<String>, placeholder: Option<String>) -> (row:
    ActionRow)
    ensures
        row matches ActionRow::InputText(t) && t.style == TextStyle::Short && t.label@ == label@
            && t.custom_id@ == id@ && t.value == value && t.placeholder == placeholder,
{
    ActionRow::InputText(
        TextInput {
            style: TextStyle::Short,
            label: String::from_str(label),
            custom_id: String::from_str(id),
            value,
            placeholder,
        },
    )
}

impl Schedule {
    /// The cache entry of the skill.
    pub closed spec fn spec_cache(&self) -> CacheContainer {
        self.cache
    }

    /// The skill, with its cache entry `schedule` below the cache root.
    pub fn new(cache: &Cache) -> (s: Schedule)
        requires
            cache.root() is Some,
        ensures
            s.spec_cache().name@ == "schedule"@,
            s.spec_cache().loc@ == join_spec(cache.root()->0, "schedule"@),
    {
        proof {
            reveal_strlit("schedule");
            let n = "schedule"@;
            assert forall|i: int| 0 <= i < n.len() implies kept(#[trigger] n[i]) && n[i] != ' ' by {
                assert(0x61 <= (n[i] as u32) <= 0x7A);
            }
            assert(is_safe(n));
            lemma_safe_path_of_safe(n);
        }
        Schedule { cache: cache.entry("schedule") }
    }

    /// The cache entry of the skill.
    pub fn cache(&self) -> (c: &CacheContainer)
        ensures
            *c == self.spec_cache(),
    {
        &self.cache
    }

    /// The name of the skill, which is also its command.
    pub fn name(&self) -> (n: String)
        ensures
            n@ == "schedule"@,
    {
        String::from_str("schedule")
    }

    /// The slash command of the skill.
    pub fn register(&self) -> (c: CommandInfo)
        ensures
            c.name@ == "schedule"@,
            c.description@ == "Create a new schedule"@,
    {
        CommandInfo { name: self.name(), description: String::from_str("Create a new schedule") }
    }

    /// The "New Schedule" form with the given date texts pre-filled.
    pub fn command_form(&self, start: String, end: String) -> (r: Response)
        ensures
            schedule_form(r, start@, end@),
    {
        let mut rows: Vec<ActionRow> = Vec::new();
        rows.push(
            short_input(
                "Schedule Name",
                "name",
                None,
                Some(String::from_str("e.g. Next D&D session")),
            ),
        );
        rows.push(short_input("Start Date", "start_date", Some(start), None));
        rows.push(short_input("End Date", "end_date", Some(end), None));
        Response::Modal(
            ModalForm { custom_id: self.name(), title: String::from_str("New Schedule"), rows },
        )
    }

    /// The answer to the slash command on day `today` (counted from
    /// 0001-01-01 as day 1): the form, its dates one and three weeks ahead.
    pub fn command(&self, today: i32) -> (r: Response)
        requires
            first_calendar_day() <= today,
            today + 21 <= last_calendar_day(),
        ensures
            schedule_form(
                r,
                iso_date_text((today + 7) as i32),
                iso_date_text((today + 21) as i32),
            ),
    {
        let start = format_iso_date(today + 7);
        let end = format_iso_date(today + 21);
        self.command_form(start, end)
    }

    /// The confirmation of a submitted schedule form: the last value given
    /// for each of the three fields, the empty text for a missing one.
    pub fn modal(&self, components: &Vec<ModalComponent>) -> (r: Response)
        ensures
            r matches Response::Message(m) && {
                &&& m.ephemeral
                &&& m.rows is None
                &&& m.content matches Some(c) && c@ == scheduled_text(components@)
            },
    {
        let mut name = String::new();
        let mut start = String::new();
        let mut end = String::new();
        let n = components.len();
        let mut i: usize = 0;
        while i < n
            invariant
                n == components@.len(),
                i <= n,
                name@ == or_empty(last_input_value(components@.take(i as int), "name"@)),
                start@ == or_empty(last_input_value(components@.take(i as int), "start_date"@)),
                end@ == or_empty(last_input_value(components@.take(i as int), "end_date"@)),
            decreases n - i,
        {
            proof {
                let t = components@.take(i + 1);
                assert(t.drop_last() =~= components@.take(i as int));
                assert(t.last() == components@[i as int]);
                reveal_strlit("name");
                reveal_strlit("start_date");
                reveal_strlit("end_date");
                assert("name"@.len() == 4);
                assert("start_date"@.len() == 10);
                assert("end_date"@.len() == 8);
                assert("start_date"@[0] != "end_date"@[0]);
            }
            match &components[i] {
                ModalComponent::InputText { custom_id, value } => {
                    let text = match value {
                        Some(v) => v.clone(),
                        None => String::new(),
                    };
                    if str_eq(custom_id.as_str(), "name") {
                        name = text;
                    } else if str_eq(custom_id.as_str(), "start_date") {
                        start = text;
                    } else if str_eq(custom_id.as_str(), "end_date") {
                        end = text;
                    }
                },
                ModalComponent::Other => {},
            }
            i = i + 1;
        }
        proof {
            assert(components@.take(n as int) =~= components@);
        }
        let mut content = String::from_str("Scheduled **");
        content.append(name.as_str());
        content.append("** from ");
        content.append(start.as_str());
        content.append(" to ");
        content.append(end.as_str());
        Response::Message(MessageReply { ephemeral: true, content: Some(content), rows: None })
    }
}

} // verus!
