//! Identifiers of widgets and the basic size constraints of a widget.

use vstd::prelude::*;

verus! {

/// The identifier of a widget.
#[derive(Debug)]
pub struct WidgetId(pub String);

impl Clone for WidgetId {
    fn clone(&self) -> (res: Self)
        ensures
            res == *self,
    {
        WidgetId(self.0.clone())
    }
}

impl WidgetId {
    /// The characters of the identifier.
    pub open spec fn name(self) -> Seq<char> {
        self.0@
    }

    /// Whether two identifiers name the same widget.
    pub fn same_as(&self, other: &WidgetId) -> (res: bool)
        ensures
            res == (self.name() == other.name()),
    {
        self.0 == other.0
    }
}

/// The names of a sequence of widget identifiers.
pub open spec fn names(ids: Seq<WidgetId>) -> Seq<Seq<char>> {
    ids.map_values(|w: WidgetId| w.name())
}

/// A copy of a vector of widget identifiers.
pub fn copy_ids(ids: &Vec<WidgetId>) -> (res: Vec<WidgetId>)
    ensures
        res@ == ids@,
{
    let mut res: Vec<WidgetId> = Vec::new();
    let mut i: usize = 0;
    while i < ids.len()
        invariant
            i <= ids@.len(),
            res@ == ids@.take(i as int),
        decreases ids@.len() - i,
    {
        res.push(ids[i].clone());
        i = i + 1;
        assert(res@ =~= ids@.take(i as int));
    }
    assert(ids@.take(i as int) =~= ids@);
    res
}

/// The smallest, largest and preferred size of a widget, in characters.
#[derive(Debug, Clone, Copy, PartialEq, Eq, Structural)]
pub struct SizeConstraints {
    pub min_width: Option<u16>,
    pub min_height: Option<u16>,
    pub max_width: Option<u16>,
    pub max_height: Option<u16>,
    /// The size the widget would like, when space is shared by priority.
    pub preferred_width: Option<u16>,
    pub preferred_height: Option<u16>,
}

/// `v` raised to `lo` when given, then lowered to `hi` when given.
pub open spec fn clamp_dim(v: u16, lo: Option<u16>, hi: Option<u16>) -> u16 {
    let raised = match lo {
        Some(l) => if v < l { l } else { v },
        None => v,
    };
    match hi {
        Some(h) => if raised > h { h } else { raised },
        None => raised,
    }
}

impl SizeConstraints {
    /// No constraint at all.
    pub fn default() -> (res: Self)
        ensures
            res == (SizeConstraints {
                min_width: None,
                min_height: None,
                max_width: None,
                max_height: None,
                preferred_width: None,
                preferred_height: None,
            }),
    {
        SizeConstraints {
                min_width: None,
                min_height: None,
                max_width: None,
                max_height: None,
                preferred_width: None,
                preferred_height: None,
            }
    }

    /// A size brought within the constraints: each dimension raised to its
    /// minimum, then lowered to its maximum.
    pub fn clamp(&self, width: u16, height: u16) -> (res: (u16, u16))
        ensures
            res == (
                clamp_dim(width, self.min_width, self.max_width),
                clamp_dim(height, self.min_height, self.max_height),
            ),
    {
        (clamp_one(width, self.min_width, self.max_width), clamp_one(height, self.min_height, self.max_height))
    }
}

/// One dimension brought within its bounds.
fn clamp_one(v: u16, lo: Option<u16>, hi: Option<u16>) -> (res: u16)
    ensures
        res == clamp_dim(v, lo, hi),
{
    let raised = match lo {
        Some(l) => if v < l { l } else { v },
        None => v,
    };
    match hi {
        Some(h) => if raised > h { h } else { raised },
        None => raised,
    }
}

} // verus!
