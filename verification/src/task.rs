use vstd::hash_map::StringHashMap;
use vstd::prelude::*;

use crate::date::{date_chars, day_at, month_at, valid_date, year_at, Date};
use crate::description_component::{
    components_chars, context_names, options_map, parse_components, project_names,
    description_components_to_string, ComponentView, DescriptionComponent,
    DescriptionComponentsParser,
};
use crate::parsers::{DateParser, Parser};

verus! {

/// A task: completion state, optional priority, optional completion and
/// creation dates, and a description held as its parsed component sequence.
#[derive(Debug, Clone)]
pub struct Task {
    pub completed: bool,
    pub priority: Option<char>,
    completed_at: Option<Date>,
    created_at: Option<Date>,
    description: Vec<DescriptionComponent>,
}

impl Task {
    /// The completion state.
    pub closed spec fn spec_completed(self) -> bool {
        self.completed
    }

    /// The priority letter.
    pub closed spec fn spec_priority(self) -> Option<char> {
        self.priority
    }

    /// The completion date.
    pub closed spec fn spec_completed_at(self) -> Option<Date> {
        self.completed_at
    }

    /// The creation date.
    pub closed spec fn spec_created_at(self) -> Option<Date> {
        self.created_at
    }

    /// The component sequence of the description.
    pub closed spec fn spec_description(self) -> Seq<ComponentView> {
        self.description.deep_view()
    }

    /// The stored dates exist in the calendar, and a completion date is
    /// only ever present together with a creation date.
    pub open spec fn wf(self) -> bool {
        &&& (self.spec_completed_at() matches Some(d) ==> d.valid())
        &&& (self.spec_created_at() matches Some(d) ==> d.valid())
        &&& (self.spec_completed_at() is Some ==> self.spec_created_at() is Some)
    }

    /// Decides `wf`. Every task the library builds is well-formed; this
    /// lets unverified callers check before calling a method that asks for
    /// it.
    pub fn well_formed(&self) -> (r: bool)
        ensures
            r == self.wf(),
    {
        match (self.completed_at, self.created_at) {
            (Some(completed), Some(created)) => completed.is_valid() && created.is_valid(),
            (Some(_), None) => false,
            (None, Some(created)) => created.is_valid(),
            (None, None) => true,
        }
    }

    /// A fresh task: not completed, no priority, no dates, and the given
    /// description parsed into its component sequence.
    pub fn new(description: &str) -> (t: Task)
        ensures
            t.wf(),
            t.spec_completed() == false,
            t.spec_priority() is None,
            t.spec_completed_at() is None,
            t.spec_created_at() is None,
            t.spec_description() == parse_components(description@),
    {
        Task {
            completed: false,
            priority: None,
            completed_at: None,
            created_at: None,
            description: match DescriptionComponentsParser::parse(description) {
                Some(pr) => pr.value,
                None => Vec::new(),
            },
        }
    }

    /// Sets the completion state. Nothing else changes. The field is also
    /// public, as a plain value; this setter is the way to change it that
    /// keeps the task's contracts in reach.
    pub fn set_completed(&mut self, completed: bool)
        ensures
            final(self).wf() == old(self).wf(),
            final(self).spec_completed() == completed,
            final(self).spec_priority() == old(self).spec_priority(),
            final(self).spec_completed_at() == old(self).spec_completed_at(),
            final(self).spec_created_at() == old(self).spec_created_at(),
            final(self).spec_description() == old(self).spec_description(),
    {
        self.completed = completed;
    }

    /// Sets or clears the priority letter. Nothing else changes. The field
    /// is also public, as a plain value; this setter is the way to change
    /// it that keeps the task's contracts in reach.
    pub fn set_priority(&mut self, priority: Option<char>)
        ensures
            final(self).wf() == old(self).wf(),
            final(self).spec_priority() == priority,
            final(self).spec_completed() == old(self).spec_completed(),
            final(self).spec_completed_at() == old(self).spec_completed_at(),
            final(self).spec_created_at() == old(self).spec_created_at(),
            final(self).spec_description() == old(self).spec_description(),
    {
        self.priority = priority;
    }

    /// The completion date.
    pub fn completed_at(&self) -> (r: Option<Date>)
        ensures
            r == self.spec_completed_at(),
    {
        self.completed_at
    }

    /// Sets or clears the completion date. A date can be set only while a
    /// creation date is present; clearing always succeeds. Nothing else
    /// changes, and a refused change leaves the task as it was.
    pub fn set_completed_at(&mut self, date_option: Option<Date>) -> (r: bool)
        requires
            old(self).wf(),
            date_option matches Some(d) ==> d.valid(),
        ensures
            final(self).wf(),
            r == (date_option is None || old(self).spec_created_at() is Some),
            r ==> final(self).spec_completed_at() == date_option,
            !r ==> final(self).spec_completed_at() == old(self).spec_completed_at(),
            final(self).spec_created_at() == old(self).spec_created_at(),
            final(self).spec_description() == old(self).spec_description(),
            final(self).spec_completed() == old(self).spec_completed(),
            final(self).spec_priority() == old(self).spec_priority(),
    {
        match date_option {
            Some(_) => match self.created_at {
                Some(_) => {
                    self.completed_at = date_option;
                    true
                },
                None => false,
            },
            None => {
                self.completed_at = None;
                true
            },
        }
    }

    /// Parses `YYYY-MM-DD` and, when the digits name a real calendar date,
    /// hands it to `set_completed_at`, which still needs a creation date to
    /// be present. Reports whether the string parsed; a parsed date that
    /// found no creation date changes nothing and is still reported as
    /// parsed.
    pub fn set_completed_at_from_str(&mut self, datestring: &str) -> (r: bool)
        requires
            old(self).wf(),
        ensures
            final(self).wf(),
            r == (date_shape(datestring@) && valid_date(
                year_at(datestring@, 0),
                month_at(datestring@, 0),
                day_at(datestring@, 0),
            )),
            r && old(self).spec_created_at() is Some ==> final(self).spec_completed_at()
                == Some(parsed_date(datestring@)),
            !(r && old(self).spec_created_at() is Some) ==> final(self).spec_completed_at()
                == old(self).spec_completed_at(),
            final(self).spec_created_at() == old(self).spec_created_at(),
            final(self).spec_description() == old(self).spec_description(),
            final(self).spec_completed() == old(self).spec_completed(),
            final(self).spec_priority() == old(self).spec_priority(),
    {
        match DateParser::parse(datestring) {
            Some(parse_result) => {
                self.set_completed_at(Some(parse_result.value));
                true
            },
            None => false,
        }
    }

    /// The creation date.
    pub fn created_at(&self) -> (r: Option<Date>)
        ensures
            r == self.spec_created_at(),
    {
        self.created_at
    }

    /// Sets or clears the creation date. Setting always succeeds; clearing
    /// succeeds only while no completion date is present. Nothing else
    /// changes, and a refused change leaves the task as it was.
    pub fn set_created_at(&mut self, date_option: Option<Date>) -> (r: bool)
        requires
            old(self).wf(),
            date_option matches Some(d) ==> d.valid(),
        ensures
            final(self).wf(),
            r == (date_option is Some || old(self).spec_completed_at() is None),
            r ==> final(self).spec_created_at() == date_option,
            !r ==> final(self).spec_created_at() == old(self).spec_created_at(),
            final(self).spec_completed_at() == old(self).spec_completed_at(),
            final(self).spec_description() == old(self).spec_description(),
            final(self).spec_completed() == old(self).spec_completed(),
            final(self).spec_priority() == old(self).spec_priority(),
    {
        match date_option {
            Some(_) => {
                self.created_at = date_option;
                true
            },
            None => match self.completed_at {
                Some(_) => false,
                None => {
                    self.created_at = None;
                    true
                },
            },
        }
    }

    /// Parses `YYYY-MM-DD` and, when the digits name a real calendar date,
    /// stores it as the creation date. Reports whether the string parsed.
    pub fn set_created_at_from_str(&mut self, datestring: &str) -> (r: bool)
        requires
            old(self).wf(),
        ensures
            final(self).wf(),
            r == (date_shape(datestring@) && valid_date(
                year_at(datestring@, 0),
                month_at(datestring@, 0),
                day_at(datestring@, 0),
            )),
            r ==> final(self).spec_created_at() == Some(parsed_date(datestring@)),
            !r ==> *final(self) == *old(self),
            final(self).spec_completed_at() == old(self).spec_completed_at(),
            final(self).spec_description() == old(self).spec_description(),
            final(self).spec_completed() == old(self).spec_completed(),
            final(self).spec_priority() == old(self).spec_priority(),
    {
        match DateParser::parse(datestring) {
            Some(parse_result) => {
                self.set_created_at(Some(parse_result.value));
                true
            },
            None => false,
        }
    }

    /// The description, written back from its components: exactly the
    /// string it was parsed from.
    pub fn description(&self) -> (r: String)
        ensures
            r@ == components_chars(self.spec_description()),
    {
        description_components_to_string(&self.description)
    }

    /// The project names of the description, in order of appearance.
    pub fn projects(&self) -> (r: Vec<String>)
        ensures
            r.deep_view() == project_names(self.spec_description()),
    {
        let mut names: Vec<String> = Vec::new();
        let mut idx: usize = 0;
        proof {
            assert(self.description.deep_view().take(0) =~= Seq::<ComponentView>::empty());
            assert(names.deep_view() =~= Seq::<Seq<char>>::empty());
        }
        while idx < self.description.len()
            invariant
                idx <= self.description.len(),
                names.deep_view() == project_names(self.description.deep_view().take(idx as int)),
            decreases self.description.len() - idx,
        {
            let ghost prev = names.deep_view();
            match &self.description[idx] {
                DescriptionComponent::Project(p) => {
                    names.push(p.clone());
                },
                _ => {},
            }
            proof {
                let cdv = self.description.deep_view();
                assert(cdv.take(idx as int + 1).drop_last() =~= cdv.take(idx as int));
                assert(cdv.take(idx as int + 1).last() == cdv[idx as int]);
                match cdv[idx as int] {
                    ComponentView::Project(p) => {
                        assert(names.deep_view() =~= prev.push(p));
                    },
                    _ => {
                        assert(names.deep_view() =~= prev);
                    },
                }
            }
            idx = idx + 1;
        }
        proof {
            assert(self.description.deep_view().take(self.description@.len() as int)
                =~= self.description.deep_view());
        }
        names
    }

    /// The context names of the description, in order of appearance.
    pub fn contexts(&self) -> (r: Vec<String>)
        ensures
            r.deep_view() == context_names(self.spec_description()),
    {
        let mut names: Vec<String> = Vec::new();
        let mut idx: usize = 0;
        proof {
            assert(self.description.deep_view().take(0) =~= Seq::<ComponentView>::empty());
            assert(names.deep_view() =~= Seq::<Seq<char>>::empty());
        }
        while idx < self.description.len()
            invariant
                idx <= self.description.len(),
                names.deep_view() == context_names(self.description.deep_view().take(idx as int)),
            decreases self.description.len() - idx,
        {
            let ghost prev = names.deep_view();
            match &self.description[idx] {
                DescriptionComponent::Context(c) => {
                    names.push(c.clone());
                },
                _ => {},
            }
            proof {
                let cdv = self.description.deep_view();
                assert(cdv.take(idx as int + 1).drop_last() =~= cdv.take(idx as int));
                assert(cdv.take(idx as int + 1).last() == cdv[idx as int]);
                match cdv[idx as int] {
                    ComponentView::Context(c) => {
                        assert(names.deep_view() =~= prev.push(c));
                    },
                    _ => {
                        assert(names.deep_view() =~= prev);
                    },
                }
            }
            idx = idx + 1;
        }
        proof {
            assert(self.description.deep_view().take(self.description@.len() as int)
                =~= self.description.deep_view());
        }
        names
    }

    /// The `key:value` attributes of the description as a map; when a key
    /// repeats, the last occurrence wins.
    pub fn options(&self) -> (r: StringHashMap<String>)
        ensures
            forall|k: Seq<char>|
                #![trigger r@.contains_key(k)]
                #![trigger options_map(self.spec_description()).contains_key(k)]
                r@.contains_key(k) <==> options_map(self.spec_description()).contains_key(k),
            forall|k: Seq<char>| #[trigger]
                r@.contains_key(k) ==> r@[k]@ == options_map(self.spec_description())[k],
    {
        let mut map: StringHashMap<String> = StringHashMap::new();
        let mut idx: usize = 0;
        proof {
            assert(self.description.deep_view().take(0) =~= Seq::<ComponentView>::empty());
        }
        while idx < self.description.len()
            invariant
                idx <= self.description.len(),
                forall|k: Seq<char>|
                    #![trigger map@.contains_key(k)]
                    #![trigger options_map(self.description.deep_view().take(idx as int)).contains_key(k)]
                    map@.contains_key(k) <==> options_map(
                        self.description.deep_view().take(idx as int),
                    ).contains_key(k),
                forall|k: Seq<char>| #[trigger]
                    map@.contains_key(k) ==> map@[k]@ == options_map(
                        self.description.deep_view().take(idx as int),
                    )[k],
            decreases self.description.len() - idx,
        {
            match &self.description[idx] {
                DescriptionComponent::KeyValue(key, value) => {
                    map.insert(key.clone(), value.clone());
                },
                _ => {},
            }
            proof {
                let cdv = self.description.deep_view();
                assert(cdv.take(idx as int + 1).drop_last() =~= cdv.take(idx as int));
                assert(cdv.take(idx as int + 1).last() == cdv[idx as int]);
            }
            idx = idx + 1;
        }
        proof {
            assert(self.description.deep_view().take(self.description@.len() as int)
                =~= self.description.deep_view());
        }
        map
    }

    /// Replaces the description with the given string, parsed into its
    /// component sequence. Nothing else changes.
    pub fn set_description(&mut self, description: &str)
        requires
            old(self).wf(),
        ensures
            final(self).wf(),
            final(self).spec_description() == parse_components(description@),
            final(self).spec_completed_at() == old(self).spec_completed_at(),
            final(self).spec_created_at() == old(self).spec_created_at(),
            final(self).spec_completed() == old(self).spec_completed(),
            final(self).spec_priority() == old(self).spec_priority(),
    {
        self.description = match DescriptionComponentsParser::parse(description) {
            Some(pr) => pr.value,
            None => Vec::new(),
        };
    }

    /// The description's components, in source order.
    pub fn description_components(&self) -> (r: &Vec<DescriptionComponent>)
        ensures
            r.deep_view() == self.spec_description(),
    {
        &self.description
    }

    /// Writes the task in line format: completion marker, priority,
    /// completion date, creation date — each only if present and each
    /// followed by exactly one space — then the description.
    pub fn to_string(&self) -> (r: String)
        requires
            self.wf(),
        ensures
            r@ == task_chars(*self),
    {
        let mut r = String::new();
        if self.completed {
            r.push('x');
            r.push(' ');
        }
        if let Some(p) = self.priority {
            r.push('(');
            r.push(p);
            r.push(')');
            r.push(' ');
        }
        if let Some(d) = self.completed_at {
            let ds = d.to_string();
            r.append(ds.as_str());
            r.push(' ');
        }
        if let Some(d) = self.created_at {
            let ds = d.to_string();
            r.append(ds.as_str());
            r.push(' ');
        }
        let tail = description_components_to_string(&self.description);
        r.append(tail.as_str());
        proof {
            assert(r@ =~= task_chars(*self));
        }
        r
    }
}

/// The ten characters at the start of `s` have the shape `YYYY-MM-DD`.
pub open spec fn date_shape(s: Seq<char>) -> bool {
    crate::date::date_shape_at(s, 0)
}

/// The date that the digits at the start of `s` write.
pub open spec fn parsed_date(s: Seq<char>) -> Date {
    Date {
        year: year_at(s, 0) as u32,
        month: month_at(s, 0) as u32,
        day: day_at(s, 0) as u32,
    }
}

/// How a task is written as a line: `x `, then `(P) `, then the completion
/// date and a space, then the creation date and a space — each only if
/// present — then the description.
pub open spec fn task_chars(t: Task) -> Seq<char> {
    (if t.spec_completed() {
        seq!['x', ' ']
    } else {
        Seq::empty()
    }) + (match t.spec_priority() {
        Some(p) => seq!['(', p, ')', ' '],
        None => Seq::empty(),
    }) + (match t.spec_completed_at() {
        Some(d) => date_chars(d) + seq![' '],
        None => Seq::empty(),
    }) + (match t.spec_created_at() {
        Some(d) => date_chars(d) + seq![' '],
        None => Seq::empty(),
    }) + components_chars(t.spec_description())
}

} // verus!
