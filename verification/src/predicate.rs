//! Rule predicates: small expression trees evaluated against a context.

use vstd::prelude::*;
use crate::index::{position_from, position_of, Text};

verus! {

/// A value that a context field holds.
#[derive(Debug, PartialEq, Eq)]
pub enum ContextValue {
    Int(i64),
    Text(String),
}

/// Mathematical model of a [`ContextValue`].
pub enum ContextValueView {
    Int(int),
    Text(Seq<char>),
}

impl DeepView for ContextValue {
    type V = ContextValueView;

    open spec fn deep_view(&self) -> ContextValueView {
        match self {
            ContextValue::Int(n) => ContextValueView::Int(*n as int),
            ContextValue::Text(s) => ContextValueView::Text(s@),
        }
    }
}

/// The facts of one run: pairs of field name and value.
///
/// A field that is named more than once has the value of its first entry.
#[derive(Debug, PartialEq, Eq)]
pub struct Context {
    pub fields: Vec<(String, ContextValue)>,
}

/// Model of a [`Context`]: pairs of field name and value.
pub type ContextView = Seq<(Text, ContextValueView)>;

impl DeepView for Context {
    type V = ContextView;

    open spec fn deep_view(&self) -> ContextView {
        self.fields.deep_view()
    }
}

/// The names of the fields of a context, in order.
pub open spec fn field_names(context: ContextView) -> Seq<Text> {
    Seq::new(context.len(), |i: int| context[i].0)
}

/// The value that a context gives to a field, if it has the field.
pub open spec fn field_value(context: ContextView, field: Text) -> Option<ContextValueView> {
    match position_of(field_names(context), field) {
        Some(i) => Some(context[i].1),
        None => None,
    }
}

/// A condition on the context, as a tree.
///
/// A comparison with a field that the context lacks is false; it never
/// fails. `Not` negates whatever its part evaluates to, so the negation of
/// such a comparison is true.
#[derive(Debug, PartialEq, Eq)]
pub enum Predicate {
    Always,
    Equals { field: String, value: ContextValue },
    InRange { field: String, low: i64, high: i64 },
    Not(Box<Predicate>),
    All(Vec<Predicate>),
    Any(Vec<Predicate>),
}

/// Model of a [`Predicate`].
pub enum PredicateView {
    Always,
    Equals { field: Seq<char>, value: ContextValueView },
    InRange { field: Seq<char>, low: int, high: int },
    Not(Box<PredicateView>),
    All(Seq<PredicateView>),
    Any(Seq<PredicateView>),
}

impl Predicate {
    /// The predicate as a mathematical expression tree.
    pub open spec fn model(&self) -> PredicateView
        decreases self,
    {
        match self {
            Predicate::Always => PredicateView::Always,
            Predicate::Equals { field, value } => PredicateView::Equals {
                field: field@,
                value: value.deep_view(),
            },
            Predicate::InRange { field, low, high } => PredicateView::InRange {
                field: field@,
                low: *low as int,
                high: *high as int,
            },
            Predicate::Not(inner) => PredicateView::Not(Box::new(inner.model())),
            Predicate::All(parts) => PredicateView::All(
                Seq::new(
                    parts@.len(),
                    |i: int|
                        if 0 <= i < parts@.len() {
                            parts@[i].model()
                        } else {
                            PredicateView::Always
                        },
                ),
            ),
            Predicate::Any(parts) => PredicateView::Any(
                Seq::new(
                    parts@.len(),
                    |i: int|
                        if 0 <= i < parts@.len() {
                            parts@[i].model()
                        } else {
                            PredicateView::Always
                        },
                ),
            ),
        }
    }
}

impl DeepView for Predicate {
    type V = PredicateView;

    open spec fn deep_view(&self) -> PredicateView {
        self.model()
    }
}

/// Whether a predicate holds in a context.
pub open spec fn holds(predicate: PredicateView, context: ContextView) -> bool
    decreases predicate,
{
    match predicate {
        PredicateView::Always => true,
        PredicateView::Equals { field, value } => field_value(context, field) == Some(value),
        PredicateView::InRange { field, low, high } => match field_value(context, field) {
            Some(ContextValueView::Int(n)) => low <= n <= high,
            _ => false,
        },
        PredicateView::Not(inner) => !holds(*inner, context),
        PredicateView::All(parts) => forall|i: int|
            #![trigger parts[i]]
            0 <= i < parts.len() ==> holds(parts[i], context),
        PredicateView::Any(parts) => exists|i: int|
            #![trigger parts[i]]
            0 <= i < parts.len() && holds(parts[i], context),
    }
}

impl ContextValue {
    /// Whether two values are the same.
    pub fn same_as(&self, other: &ContextValue) -> (same: bool)
        ensures
            same == (self.deep_view() == other.deep_view()),
    {
        match (self, other) {
            (ContextValue::Int(a), ContextValue::Int(b)) => *a == *b,
            (ContextValue::Text(a), ContextValue::Text(b)) => *a == *b,
            _ => false,
        }
    }
}

impl Context {
    /// The value of a field, if the context has the field.
    pub fn get(&self, field: &str) -> (value: Option<&ContextValue>)
        ensures
            match value {
                Some(v) => field_value(self.deep_view(), field@) == Some(v.deep_view()),
                None => field_value(self.deep_view(), field@) is None,
            },
    {
        let wanted = field.to_owned();
        let mut i: usize = 0;
        while i < self.fields.len()
            invariant
                i <= self.fields.len(),
                wanted@ == field@,
                position_of(field_names(self.deep_view()), field@) == position_from(
                    field_names(self.deep_view()),
                    field@,
                    i as int,
                ),
            decreases self.fields.len() - i,
        {
            if self.fields[i].0 == wanted {
                return Some(&self.fields[i].1);
            }
            i = i + 1;
        }
        None
    }
}

impl Predicate {
    /// Evaluates the predicate in a context.
    pub fn evaluate(&self, context: &Context) -> (result: bool)
        ensures
            result == holds(self.model(), context.deep_view()),
        decreases self,
    {
        match self {
            Predicate::Always => true,
            Predicate::Equals { field, value } => match context.get(field.as_str()) {
                Some(found) => found.same_as(value),
                None => false,
            },
            Predicate::InRange { field, low, high } => match context.get(field.as_str()) {
                Some(ContextValue::Int(n)) => *low <= *n && *n <= *high,
                _ => false,
            },
            Predicate::Not(inner) => !inner.evaluate(context),
            Predicate::All(parts) => {
                let mut i: usize = 0;
                while i < parts.len()
                    invariant
                        i <= parts.len(),
                        forall|j: int|
                            #![trigger parts@[j]]
                            0 <= j < i ==> holds(parts@[j].model(), context.deep_view()),
                        self == Predicate::All(*parts),
                    decreases parts.len() - i,
                {
                    assert(self.model()->All_0[i as int] == parts@[i as int].model());
                    if !parts[i].evaluate(context) {
                        return false;
                    }
                    i = i + 1;
                }
                true
            },
            Predicate::Any(parts) => {
                let mut i: usize = 0;
                while i < parts.len()
                    invariant
                        i <= parts.len(),
                        forall|j: int|
                            #![trigger parts@[j]]
                            0 <= j < i ==> !holds(parts@[j].model(), context.deep_view()),
                        self == Predicate::Any(*parts),
                    decreases parts.len() - i,
                {
                    assert(self.model()->Any_0[i as int] == parts@[i as int].model());
                    if parts[i].evaluate(context) {
                        return true;
                    }
                    i = i + 1;
                }
                false
            },
        }
    }
}

} // verus!
