//! The registry of skills and the routing of interactions to them.

use vstd::prelude::*;

use crate::keyed::KeyedList;
use crate::route::{decode_spec, strings_view, Route};

verus! {

/// The kinds of interaction a skill may handle.
#[derive(Debug, Clone, Copy, PartialEq, Eq)]
pub enum InteractionKind {
    Command,
    Component,
    Modal,
}

/// An inbound interaction, as far as routing reads it.
#[derive(Debug)]
pub enum Interaction {
    /// A slash command, by name.
    Command { name: String },
    /// A button click or select choice, by `custom_id`.
    Component { custom_id: String },
    /// A modal submission, by `custom_id`.
    Modal { custom_id: String },
    /// Anything else.
    Other,
}

/// Where an interaction goes: the kind of handler and the position of the
/// skill in the list the registry was built from.
#[derive(Debug, Clone, Copy, PartialEq, Eq)]
pub enum Dispatch {
    Command(usize),
    Component(usize),
    Modal(usize),
    /// Nothing to do.
    Ignore,
}

/// An interaction that no registered skill handles.
#[derive(Debug)]
pub enum DispatchError {
    UnknownCommand(String),
    UnknownComponent(String),
    UnknownModal(String),
}

/// A slash command as registered: its name and description.
#[derive(Debug)]
pub struct CommandInfo {
    pub name: String,
    pub description: String,
}

/// The registry built from a list of skill names: each name maps to the
/// position of the last skill in the list that carries it.
pub open spec fn registry_spec(names: Seq<Seq<char>>) -> Map<Seq<char>, usize>
    decreases names.len(),
{
    if names.len() == 0 {
        Map::empty()
    } else {
        registry_spec(names.drop_last()).insert(names.last(), (names.len() - 1) as usize)
    }
}

/// A registered name is that of some skill, and it selects the last skill
/// of the list that carries it.
pub proof fn law_registry_selects_last(names: Seq<Seq<char>>, k: Seq<char>)
    requires
        names.len() <= usize::MAX,
    ensures
        registry_spec(names).contains_key(k) <==> exists|i: int|
            0 <= i < names.len() && names[i] == k,
        registry_spec(names).contains_key(k) ==> {
            let i = registry_spec(names)[k] as int;
            &&& 0 <= i < names.len()
            &&& names[i] == k
            &&& forall|j: int| i < j < names.len() ==> names[j] != k
        },
    decreases names.len(),
{
    if names.len() > 0 {
        let front = names.drop_last();
        law_registry_selects_last(front, k);
        if exists|i: int| 0 <= i < names.len() && names[i] == k {
            let i = choose|i: int| 0 <= i < names.len() && names[i] == k;
            if i < names.len() - 1 {
                assert(front[i] == k);
            }
        }
        if exists|i: int| 0 <= i < front.len() && front[i] == k {
            let i = choose|i: int| 0 <= i < front.len() && front[i] == k;
            assert(names[i] == k);
        }
        if registry_spec(names).contains_key(k) && names.last() != k {
            let i = registry_spec(front)[k] as int;
            assert(registry_spec(names)[k] == registry_spec(front)[k]);
            assert(names[i] == front[i]);
            assert forall|j: int| i < j < names.len() implies names[j] != k by {
                if j < names.len() - 1 {
                    assert(names[j] == front[j]);
                }
            }
        }
    }
}

/// The skill that owns a `custom_id`: the registered skill named by the
/// first segment of the route it encodes, if there is one.
pub open spec fn owner_of(skills: Map<Seq<char>, usize>, id: Seq<char>) -> Option<usize> {
    match decode_spec(id) {
        Some((skill, _)) => if skills.contains_key(skill) {
            Some(skills[skill])
        } else {
            None
        },
        None => None,
    }
}

/// The text of a `DispatchError`.
pub open spec fn dispatch_error_text(e: DispatchError) -> Seq<char> {
    match e {
        DispatchError::UnknownCommand(n) => n@ + " is not a registered command"@,
        DispatchError::UnknownComponent(n) => n@ + " is not a registered component"@,
        DispatchError::UnknownModal(n) => n@ + " is not a registered modal"@,
    }
}

impl DispatchError {
    /// The message shown for this error.
    pub fn message(&self) -> (m: String)
        ensures
            m@ == dispatch_error_text(*self),
    {
        match self {
            DispatchError::UnknownCommand(n) => {
                let mut m = n.clone();
                m.append(" is not a registered command");
                m
            },
            DispatchError::UnknownComponent(n) => {
                let mut m = n.clone();
                m.append(" is not a registered component");
                m
            },
            DispatchError::UnknownModal(n) => {
                let mut m = n.clone();
                m.append(" is not a registered modal");
                m
            },
        }
    }
}

/// The plural noun of an interaction kind.
pub open spec fn kind_noun(kind: InteractionKind) -> Seq<char> {
    match kind {
        InteractionKind::Command => "commands"@,
        InteractionKind::Component => "components"@,
        InteractionKind::Modal => "modals"@,
    }
}

/// The error text of a skill that does not handle an interaction kind.
pub fn unsupported_message(skill: &str, kind: InteractionKind) -> (m: String)
    ensures
        m@ == skill@ + " does not support "@ + kind_noun(kind),
{
    let mut m = String::from_str(skill);
    m.append(" does not support ");
    match kind {
        InteractionKind::Command => m.append("commands"),
        InteractionKind::Component => m.append("components"),
        InteractionKind::Modal => m.append("modals"),
    }
    m
}

/// The skills by name.
#[derive(Debug)]
pub struct SkillRegistry {
    skills: KeyedList<usize>,
}

impl SkillRegistry {
    /// Each name selects a different skill.
    #[verifier::type_invariant]
    spec fn names_select_distinct_skills(self) -> bool {
        self.skills.values_distinct()
    }

    /// Name to position of the skill.
    pub closed spec fn skills(&self) -> Map<Seq<char>, usize> {
        self.skills@
    }

    /// Some name selects the skill at position `i`.
    pub open spec fn selects(&self, i: usize) -> bool {
        exists|k: Seq<char>| #[trigger] self.skills().contains_key(k) && self.skills()[k] == i
    }

    /// The registry of the skills with these names, in this order; a later
    /// skill replaces an earlier one of the same name.
    pub fn new(names: &Vec<String>) -> (r: SkillRegistry)
        ensures
            r.skills() == registry_spec(strings_view(names@)),
    {
        let mut skills: KeyedList<usize> = KeyedList::new();
        let n = names.len();
        let mut i: usize = 0;
        while i < n
            invariant
                n == names@.len(),
                i <= n,
                skills@ == registry_spec(strings_view(names@.take(i as int))),
            decreases n - i,
        {
            proof {
                let t = strings_view(names@.take(i + 1));
                assert(t.drop_last() =~= strings_view(names@.take(i as int)));
                assert(t.last() == names@[i as int]@);
            }
            skills.insert(names[i].clone(), i);
            i = i + 1;
        }
        proof {
            assert(names@.take(n as int) =~= names@);
            let nv = strings_view(names@);
            assert forall|k1: Seq<char>, k2: Seq<char>|
                #![trigger skills@[k1], skills@[k2]]
                skills@.contains_key(k1) && skills@.contains_key(k2) && k1 != k2 implies skills@[k1]
                != skills@[k2] by {
                law_registry_selects_last(nv, k1);
                law_registry_selects_last(nv, k2);
            }
        }
        SkillRegistry { skills }
    }

    /// The positions of the skills the registry selects, one per name: the
    /// skills whose commands are registered.
    pub fn command_skills(&self) -> (r: Vec<usize>)
        ensures
            r@.len() == self.skills().dom().len(),
            r@.no_duplicates(),
            forall|i: int| 0 <= i < r@.len() ==> self.selects(#[trigger] r@[i]),
            forall|k: Seq<char>| #[trigger]
                self.skills().contains_key(k) ==> r@.contains(self.skills()[k]),
    {
        proof {
            use_type_invariant(self);
        }
        let r = self.skills.values();
        proof {
            assert forall|i: int| 0 <= i < r@.len() implies self.selects(#[trigger] r@[i]) by {
                assert(self.skills.holds_value(r@[i]));
                let k = choose|k: Seq<char>| #[trigger]
                    self.skills@.contains_key(k) && self.skills@[k] == r@[i];
                assert(self.skills().contains_key(k) && self.skills()[k] == r@[i]);
            }
        }
        r
    }

    /// The skill that owns `id`: the one named by the first segment of the
    /// route that `id` encodes; `None` when `id` is no route or that skill is
    /// not registered.
    pub fn skill_for_id(&self, id: &str) -> (r: Option<usize>)
        ensures
            r == owner_of(self.skills(), id@),
    {
        match Route::decode(id) {
            Some(route) => match self.skills.get(route.skill.as_str()) {
                Some(i) => Some(*i),
                None => None,
            },
            None => None,
        }
    }

    /// Where `interaction` goes. A command goes to the skill of its name; a
    /// component or modal to the skill named by the first segment of its
    /// `custom_id`; other interactions are ignored.
    pub fn dispatch(&self, interaction: &Interaction) -> (r: Result<Dispatch, DispatchError>)
        ensures
            match interaction {
                Interaction::Command { name } => if self.skills().contains_key(name@) {
                    r == Ok::<Dispatch, DispatchError>(Dispatch::Command(self.skills()[name@]))
                } else {
                    r matches Err(DispatchError::UnknownCommand(n)) && n@ == name@
                },
                Interaction::Component { custom_id } => match owner_of(self.skills(), custom_id@) {
                    Some(i) => r == Ok::<Dispatch, DispatchError>(Dispatch::Component(i)),
                    None => r matches Err(DispatchError::UnknownComponent(n)) && n@ == custom_id@,
                },
                Interaction::Modal { custom_id } => match owner_of(self.skills(), custom_id@) {
                    Some(i) => r == Ok::<Dispatch, DispatchError>(Dispatch::Modal(i)),
                    None => r matches Err(DispatchError::UnknownModal(n)) && n@ == custom_id@,
                },
                Interaction::Other => r == Ok::<Dispatch, DispatchError>(Dispatch::Ignore),
            },
    {
        match interaction {
            Interaction::Command { name } => match self.skills.get(name.as_str()) {
                Some(i) => Ok(Dispatch::Command(*i)),
                None => Err(DispatchError::UnknownCommand(name.clone())),
            },
            Interaction::Component { custom_id } => match self.skill_for_id(custom_id.as_str()) {
                Some(i) => Ok(Dispatch::Component(i)),
                None => Err(DispatchError::UnknownComponent(custom_id.clone())),
            },
            Interaction::Modal { custom_id } => match self.skill_for_id(custom_id.as_str()) {
                Some(i) => Ok(Dispatch::Modal(i)),
                None => Err(DispatchError::UnknownModal(custom_id.clone())),
            },
            Interaction::Other => Ok(Dispatch::Ignore),
        }
    }
}

} // verus!
