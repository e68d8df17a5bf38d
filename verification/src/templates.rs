//! Named layout templates kept in memory: a layout tree with its
//! breakpoints and dynamic adjustments, found by name or by tag, one of
//! them active.

use vstd::prelude::*;
use crate::layout::{ConfigFormat, DynamicAdjustment, LayoutError, LayoutNode, ResponsiveBreakpoint};
use crate::text::{text_eq, texts};

verus! {

/// A named layout: its tree, breakpoints and dynamic adjustments, when it
/// was made and last changed (milliseconds since the epoch), its version
/// and its tags.
#[derive(Debug)]
pub struct LayoutTemplate {
    pub name: String,
    pub description: String,
    pub root_node: LayoutNode,
    pub breakpoints: Vec<ResponsiveBreakpoint>,
    pub dynamic_adjustments: Vec<DynamicAdjustment>,
    pub created_at_ms: u64,
    pub modified_at_ms: u64,
    pub version: String,
    pub tags: Vec<String>,
}

/// The last position of a template named `name` in `s`, or -1.
pub open spec fn template_pos(s: Seq<LayoutTemplate>, name: Seq<char>) -> int
    decreases s.len(),
{
    if s.len() == 0 {
        -1
    } else if s.last().name@ == name {
        s.len() - 1
    } else {
        template_pos(s.drop_last(), name)
    }
}

proof fn lemma_template_pos(s: Seq<LayoutTemplate>, name: Seq<char>)
    ensures
        -1 <= template_pos(s, name) < s.len(),
        template_pos(s, name) >= 0 ==> s[template_pos(s, name)].name@ == name,
        template_pos(s, name) < 0 ==> forall|i: int| 0 <= i < s.len() ==> #[trigger] s[i].name@ != name,
    decreases s.len(),
{
    if s.len() > 0 {
        lemma_template_pos(s.drop_last(), name);
        if template_pos(s, name) < 0 {
            assert forall|i: int| 0 <= i < s.len() implies #[trigger] s[i].name@ != name by {
                if i < s.len() - 1 {
                    assert(s.drop_last()[i] == s[i]);
                }
            }
        }
    }
}

/// The templates of `s` tagged `tag`, in order.
pub open spec fn tagged(s: Seq<LayoutTemplate>, tag: Seq<char>) -> Seq<LayoutTemplate>
    decreases s.len(),
{
    if s.len() == 0 {
        Seq::empty()
    } else if texts(s.last().tags@).contains(tag) {
        tagged(s.drop_last(), tag).push(s.last())
    } else {
        tagged(s.drop_last(), tag)
    }
}

/// The position of a template named `name` in `v`; see `template_pos`.
fn find_template(v: &Vec<LayoutTemplate>, name: &str) -> (res: Option<usize>)
    ensures
        res matches Some(i) ==> i as int == template_pos(v@, name@) && i < v@.len(),
        res is None ==> template_pos(v@, name@) == -1,
{
    proof {
        lemma_template_pos(v@, name@);
    }
    let mut i: usize = v.len();
    assert(v@.take(i as int) =~= v@);
    while i > 0
        invariant
            i <= v@.len(),
            template_pos(v@, name@) == template_pos(v@.take(i as int), name@),
        decreases i,
    {
        let k = i - 1;
        assert(v@.take(i as int).drop_last() =~= v@.take(k as int));
        if text_eq(v[k].name.as_str(), name) {
            return Some(k);
        }
        i = k;
    }
    None
}

/// Whether `tags` holds `tag`.
fn has_tag(tags: &Vec<String>, tag: &str) -> (res: bool)
    ensures
        res == texts(tags@).contains(tag@),
{
    let mut i: usize = 0;
    while i < tags.len()
        invariant
            i <= tags@.len(),
            forall|j: int| 0 <= j < i ==> #[trigger] tags@[j]@ != tag@,
        decreases tags@.len() - i,
    {
        if text_eq(tags[i].as_str(), tag) {
            assert(texts(tags@)[i as int] == tag@);
            return true;
        }
        i = i + 1;
    }
    assert forall|j: int| 0 <= j < texts(tags@).len() implies #[trigger] texts(tags@)[j] != tag@ by {
        assert(texts(tags@)[j] == tags@[j]@);
    }
    false
}

/// Layout templates by name, the one active, whether they are saved as
/// they change and the format they are saved in; reading and writing the
/// files is the caller's.
pub struct LayoutConfigManager {
    templates: Vec<LayoutTemplate>,
    active_template: Option<String>,
    auto_save: bool,
    format: ConfigFormat,
}

impl LayoutConfigManager {
    /// The templates, in the order they were first kept.
    pub closed spec fn kept(&self) -> Seq<LayoutTemplate> {
        self.templates@
    }

    /// The name of the active template, if any.
    pub closed spec fn active(&self) -> Option<Seq<char>> {
        match self.active_template {
            Some(n) => Some(n@),
            None => None,
        }
    }

    /// Whether templates are saved as they change.
    pub closed spec fn saving(&self) -> bool {
        self.auto_save
    }

    /// The format templates are saved in.
    pub closed spec fn file_format(&self) -> ConfigFormat {
        self.format
    }

    /// No template, none active, saving as they change, in JSON.
    pub fn new() -> (res: Self)
        ensures
            res.kept().len() == 0,
            res.active() is None,
            res.saving(),
            res.file_format() == ConfigFormat::Json,
    {
        LayoutConfigManager { templates: Vec::new(), active_template: None, auto_save: true, format: ConfigFormat::Json }
    }

    /// Sets the format templates are saved in.
    pub fn set_format(&mut self, format: ConfigFormat)
        ensures
            final(self).file_format() == format,
            final(self).kept() == old(self).kept(),
            final(self).active() == old(self).active(),
            final(self).saving() == old(self).saving(),
    {
        self.format = format;
    }

    /// The format templates are saved in.
    pub fn format(&self) -> (res: ConfigFormat)
        ensures
            res == self.file_format(),
    {
        self.format
    }

    /// Whether templates are saved as they change.
    pub fn is_auto_save(&self) -> (res: bool)
        ensures
            res == self.saving(),
    {
        self.auto_save
    }

    /// Sets whether templates are saved as they change.
    pub fn set_auto_save(&mut self, enabled: bool)
        ensures
            final(self).saving() == enabled,
            final(self).kept() == old(self).kept(),
            final(self).active() == old(self).active(),
    {
        self.auto_save = enabled;
    }

    /// Keeps a template under its name, in place of one of that name.
    pub fn insert_template(&mut self, template: LayoutTemplate)
        ensures
            final(self).kept() == if template_pos(old(self).kept(), template.name@) >= 0 {
                old(self).kept().update(template_pos(old(self).kept(), template.name@), template)
            } else {
                old(self).kept().push(template)
            },
            final(self).active() == old(self).active(),
            final(self).saving() == old(self).saving(),
    {
        match find_template(&self.templates, template.name.as_str()) {
            Some(i) => {
                self.templates.set(i, template);
            },
            None => {
                self.templates.push(template);
            },
        }
    }

    /// The template named `name`, if any.
    pub fn get_template(&self, name: &str) -> (res: Option<&LayoutTemplate>)
        ensures
            res matches Some(t) ==> template_pos(self.kept(), name@) >= 0 && *t == self.kept()[template_pos(
                self.kept(),
                name@,
            )],
            res is None ==> template_pos(self.kept(), name@) == -1,
    {
        match find_template(&self.templates, name) {
            Some(i) => Some(&self.templates[i]),
            None => None,
        }
    }

    /// The names of the templates, in order.
    pub fn get_template_names(&self) -> (res: Vec<String>)
        ensures
            texts(res@) == self.kept().map_values(|t: LayoutTemplate| t.name@),
    {
        let mut out: Vec<String> = Vec::new();
        let mut i: usize = 0;
        while i < self.templates.len()
            invariant
                i <= self.templates@.len(),
                texts(out@) == self.templates@.map_values(|t: LayoutTemplate| t.name@).take(i as int),
            decreases self.templates@.len() - i,
        {
            let ghost before = out@;
            out.push(self.templates[i].name.clone());
            assert(texts(out@) =~= texts(before).push(self.templates@[i as int].name@));
            i = i + 1;
            assert(texts(out@) =~= self.templates@.map_values(|t: LayoutTemplate| t.name@).take(i as int));
        }
        assert(self.templates@.map_values(|t: LayoutTemplate| t.name@).take(i as int) =~= self.templates@.map_values(
            |t: LayoutTemplate| t.name@,
        ));
        out
    }

    /// The templates tagged `tag`, in order.
    pub fn get_templates_by_tag(&self, tag: &str) -> (res: Vec<&LayoutTemplate>)
        ensures
            res@.map_values(|t: &LayoutTemplate| *t) == tagged(self.kept(), tag@),
    {
        let mut out: Vec<&LayoutTemplate> = Vec::new();
        let mut i: usize = 0;
        assert(self.templates@.take(0) =~= Seq::<LayoutTemplate>::empty());
        while i < self.templates.len()
            invariant
                i <= self.templates@.len(),
                out@.map_values(|t: &LayoutTemplate| *t) == tagged(self.templates@.take(i as int), tag@),
            decreases self.templates@.len() - i,
        {
            let t = &self.templates[i];
            let ghost before = out@;
            proof {
                assert(self.templates@.take(i + 1).drop_last() =~= self.templates@.take(i as int));
                assert(self.templates@.take(i + 1).last() == self.templates@[i as int]);
            }
            if has_tag(&t.tags, tag) {
                out.push(t);
                assert(out@.map_values(|t: &LayoutTemplate| *t) =~= before.map_values(|t: &LayoutTemplate| *t).push(*t));
            }
            i = i + 1;
        }
        assert(self.templates@.take(i as int) =~= self.templates@);
        out
    }

    /// Drops the template named `name`, telling whether there was one;
    /// while saving, dropping the active one leaves none active.
    pub fn remove_template(&mut self, name: &str) -> (res: bool)
        ensures
            res == (template_pos(old(self).kept(), name@) >= 0),
            res ==> final(self).kept() == old(self).kept().remove(template_pos(old(self).kept(), name@)),
            !res ==> final(self).kept() == old(self).kept(),
            final(self).active() == if res && old(self).saving() && old(self).active() == Some(name@) {
                None
            } else {
                old(self).active()
            },
            final(self).saving() == old(self).saving(),
    {
        match find_template(&self.templates, name) {
            Some(i) => {
                self.templates.remove(i);
                if self.auto_save {
                    let clear = match &self.active_template {
                        Some(a) => text_eq(a.as_str(), name),
                        None => false,
                    };
                    if clear {
                        self.active_template = None;
                    }
                }
                true
            },
            None => false,
        }
    }

    /// Makes the template named `name` active, or none: refused, and
    /// nothing changed, when no template has that name.
    pub fn set_active_template(&mut self, name: Option<String>) -> (res: Result<(), LayoutError>)
        ensures
            match name {
                Some(n) => if template_pos(old(self).kept(), n@) >= 0 {
                    res is Ok && final(self).active() == Some(n@)
                } else {
                    (res matches Err(LayoutError::ConfigError { message }) && message@ == "Template '"@ + n@
                        + "' not found"@) && final(self).active() == old(self).active()
                },
                None => res is Ok && final(self).active() is None,
            },
            final(self).kept() == old(self).kept(),
            final(self).saving() == old(self).saving(),
    {
        if let Some(n) = &name {
            if find_template(&self.templates, n.as_str()).is_none() {
                let mut m = String::from_str("Template '");
                m.append(n.as_str());
                m.append("' not found");
                return Err(LayoutError::ConfigError { message: m });
            }
        }
        self.active_template = name;
        Ok(())
    }

    /// The name of the active template, if any.
    pub fn get_active_template_name(&self) -> (res: Option<&String>)
        ensures
            res matches Some(n) ==> self.active() == Some(n@),
            res is None ==> self.active() is None,
    {
        self.active_template.as_ref()
    }

    /// The active template, if one is and is kept.
    pub fn get_active_template(&self) -> (res: Option<&LayoutTemplate>)
        ensures
            res matches Some(t) ==> (self.active() matches Some(n) && template_pos(self.kept(), n) >= 0 && *t
                == self.kept()[template_pos(self.kept(), n)]),
            res is None ==> (self.active() is None || (self.active() matches Some(n) && template_pos(self.kept(), n)
                == -1)),
    {
        match &self.active_template {
            Some(n) => self.get_template(n.as_str()),
            None => None,
        }
    }
}

} // verus!
