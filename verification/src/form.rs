//! The new-issue form: its fields, what each choice field offers, how a
//! field reads back on the form, and the create parameters it assembles.
use vstd::prelude::*;

use std::collections::HashSet;

use crate::editor::{spec_summary, BodyEditor, InputState};
use crate::text::{
    chars_of, join, join_strings, lowercase, owned, starts_with, starts_with_chars, str_views,
    to_lowercase, trim, trim_end, trim_end_str, trim_str,
};
use crate::types::{priority_prefix, FormOptions, IdName, NewIssueParams};

verus! {

broadcast use vstd::string::group_string_axioms, vstd::std_specs::hash::group_hash_axioms;

/// Number of fields of the form; the row after the last field is the
/// `[Create issue]` action.
pub const ISSUE_FORM_FIELD_COUNT: usize = 8;

/// Index of the `[Create issue]` row.
pub const ISSUE_FORM_CREATE_ROW: usize = 8;

/// Index of the `[Cancel]` row, one past Create.
pub const ISSUE_FORM_CANCEL_ROW: usize = 9;

/// Width of the form's label column.
pub const ISSUE_FORM_LABEL_WIDTH: usize = 14;

/// The form's outer width.
pub const ISSUE_FORM_WIDTH: u16 = 78;

/// Visual rows reserved for the inline description box.
pub const ISSUE_FORM_DESC_HEIGHT: usize = 4;

/// The name of form field `idx`, in display order.
pub open spec fn issue_form_field_label(idx: usize) -> Seq<char> {
    if idx == 0 {
        "title"@
    } else if idx == 1 {
        "description"@
    } else if idx == 2 {
        "assignees"@
    } else if idx == 3 {
        "labels"@
    } else if idx == 4 {
        "type"@
    } else if idx == 5 {
        "priority"@
    } else if idx == 6 {
        "project"@
    } else {
        "milestone"@
    }
}

/// The form field names, in display order.
pub fn issue_form_field_name(idx: usize) -> (r: &'static str)
    requires
        idx < ISSUE_FORM_FIELD_COUNT,
    ensures
        r@ == issue_form_field_label(idx),
{
    match idx {
        0 => "title",
        1 => "description",
        2 => "assignees",
        3 => "labels",
        4 => "type",
        5 => "priority",
        6 => "project",
        _ => "milestone",
    }
}

/// Inner text width of the form: its outer width clamped to the frame,
/// minus the two borders.
pub fn issue_form_width(frame_width: u16) -> (r: u16)
    ensures
        r as int == (if frame_width < 2 {
            0
        } else if frame_width < ISSUE_FORM_WIDTH {
            frame_width - 2
        } else {
            ISSUE_FORM_WIDTH - 2
        }),
{
    let w = if frame_width < ISSUE_FORM_WIDTH {
        frame_width
    } else {
        ISSUE_FORM_WIDTH
    };
    w.saturating_sub(2)
}

/// Whether a label acts as a priority: its lowercased name starts with
/// `priority:`.
pub open spec fn is_priority_option(name: Seq<char>) -> bool {
    starts_with(lowercase(name), priority_prefix())
}

/// The priority labels among the first `upto` labels, in order.
pub open spec fn priority_labels(labels: Seq<IdName>, upto: int) -> Seq<IdName>
    decreases upto,
{
    if upto <= 0 {
        Seq::empty()
    } else {
        let prev = priority_labels(labels, upto - 1);
        if is_priority_option(labels[upto - 1].name@) {
            prev.push(labels[upto - 1])
        } else {
            prev
        }
    }
}

pub open spec fn names_of(v: Seq<IdName>) -> Seq<Seq<char>> {
    v.map_values(|x: IdName| x.name@)
}

/// The members of `set` below `upto`, ascending.
pub open spec fn picked_upto(set: Set<usize>, upto: int) -> Seq<usize>
    decreases upto,
{
    if upto <= 0 {
        Seq::empty()
    } else {
        let prev = picked_upto(set, upto - 1);
        if set.contains((upto - 1) as usize) {
            prev.push((upto - 1) as usize)
        } else {
            prev
        }
    }
}

pub proof fn lemma_picked_upto(set: Set<usize>, upto: int)
    ensures
        forall|k: int|
            0 <= k < picked_upto(set, upto).len() ==> 0 <= #[trigger] picked_upto(set, upto)[k] < upto
                && set.contains(picked_upto(set, upto)[k]),
        picked_upto(set, upto).len() <= if upto < 0 { 0 } else { upto },
    decreases upto,
{
    if upto > 0 {
        lemma_picked_upto(set, upto - 1);
    }
}

/// The ids of the entries of `from` whose positions are in `set`, in
/// position order; positions past the end are ignored.
pub open spec fn ids_of(set: Set<usize>, from: Seq<IdName>) -> Seq<Seq<char>> {
    picked_upto(set, from.len() as int).map_values(|i: usize| from[i as int].id@)
}

/// The entries of `opts` whose positions are in `set`, in position order.
pub open spec fn picked_names(set: Set<usize>, opts: Seq<Seq<char>>) -> Seq<Seq<char>> {
    picked_upto(set, opts.len() as int).map_values(|i: usize| opts[i as int])
}

/// The `i`-th entry of `opts` when `sel` is `Some(i)` in range, else empty.
pub open spec fn pick(sel: Option<usize>, opts: Seq<Seq<char>>) -> Seq<char> {
    match sel {
        Some(i) => if i < opts.len() {
            opts[i as int]
        } else {
            Seq::empty()
        },
        None => Seq::empty(),
    }
}

/// The id of the `i`-th entry of `from`, when `sel` is `Some(i)` in range.
pub open spec fn pick_id(sel: Option<usize>, from: Seq<IdName>) -> Option<Seq<char>> {
    match sel {
        Some(i) => if i < from.len() {
            Some(from[i as int].id@)
        } else {
            None
        },
        None => None,
    }
}

pub open spec fn opt_string_view(o: Option<String>) -> Option<Seq<char>> {
    match o {
        Some(s) => Some(s@),
        None => None,
    }
}

/// State of the new-issue form. Selections index into the corresponding
/// option lists.
pub struct IssueForm {
    /// Repo the issue will be created in.
    pub repo: String,
    pub title: InputState,
    pub body: BodyEditor,
    pub assignees: HashSet<usize>,
    pub labels: HashSet<usize>,
    pub issue_type: Option<usize>,
    pub priority: Option<usize>,
    pub project: Option<usize>,
    pub milestone: Option<usize>,
    /// `None` while the per-repo options fetch is in flight.
    pub options: Option<FormOptions>,
    pub field_idx: usize,
}

/// The ids, in position order, of the entries of `from` selected in `set`.
fn selected_ids(set: &HashSet<usize>, from: &Vec<IdName>) -> (r: Vec<String>)
    ensures
        str_views(r@) == ids_of(set@, from@),
{
    let ghost picked = picked_upto(set@, from@.len() as int);
    let mut out: Vec<String> = Vec::new();
    let mut i: usize = 0;
    while i < from.len()
        invariant
            i <= from@.len(),
            str_views(out@) =~= picked_upto(set@, i as int).map_values(
                |j: usize| from@[j as int].id@,
            ),
        decreases from@.len() - i,
    {
        proof {
            lemma_picked_upto(set@, i as int);
        }
        if set.contains(&i) {
            let ghost before = out@;
            out.push(from[i].id.clone());
            assert(str_views(out@) =~= before.map_values(|x: String| x@).push(
                from@[i as int].id@,
            ));
        }
        i += 1;
    }
    out
}

/// The entries of `opts`, in position order, selected in `set`.
fn selected_names(set: &HashSet<usize>, opts: &Vec<String>) -> (r: Vec<String>)
    ensures
        str_views(r@) == picked_names(set@, str_views(opts@)),
{
    let ghost ov = str_views(opts@);
    let mut out: Vec<String> = Vec::new();
    let mut i: usize = 0;
    while i < opts.len()
        invariant
            i <= opts@.len(),
            ov == str_views(opts@),
            str_views(out@) =~= picked_upto(set@, i as int).map_values(
                |j: usize| ov[j as int],
            ),
        decreases opts@.len() - i,
    {
        if set.contains(&i) {
            let ghost before = out@;
            out.push(opts[i].clone());
            assert(str_views(out@) =~= before.map_values(|x: String| x@).push(
                ov[i as int],
            ));
        }
        i += 1;
    }
    out
}

/// The names of the entries of `v`, in order.
fn names(v: &Vec<IdName>) -> (r: Vec<String>)
    ensures
        str_views(r@) == names_of(v@),
{
    let mut out: Vec<String> = Vec::new();
    let mut i: usize = 0;
    while i < v.len()
        invariant
            i <= v@.len(),
            str_views(out@) =~= names_of(v@.subrange(0, i as int)),
        decreases v@.len() - i,
    {
        let ghost prev = out@;
        out.push(v[i].name.clone());
        assert(str_views(out@) =~= str_views(prev).push(v@[i as int].name@));
        assert(names_of(v@.subrange(0, i + 1)) =~= names_of(v@.subrange(0, i as int)).push(
            v@[i as int].name@,
        ));
        i += 1;
    }
    assert(v@.subrange(0, v@.len() as int) =~= v@);
    out
}

/// The id of the entry `sel` points at, if it is in range.
fn chosen_id(sel: Option<usize>, from: &Vec<IdName>) -> (r: Option<String>)
    ensures
        opt_string_view(r) == pick_id(sel, from@),
{
    match sel {
        Some(i) => if i < from.len() {
            Some(from[i].id.clone())
        } else {
            None
        },
        None => None,
    }
}

/// Whether a label name acts as a priority.
fn priority_option(name: &str) -> (r: bool)
    ensures
        r == is_priority_option(name@),
{
    let lower = to_lowercase(name);
    let lv = chars_of(lower.as_str());
    let p = "priority:";
    proof {
        reveal_strlit("priority:");
    }
    let pv = chars_of(p);
    assert(pv@ =~= priority_prefix());
    starts_with_chars(&lv, &pv)
}

impl IssueForm {
    /// The option list backing a select or multi field, as display names.
    pub open spec fn spec_field_options(&self, idx: usize) -> Seq<Seq<char>> {
        match self.options {
            None => Seq::empty(),
            Some(o) => if idx == 2 {
                names_of(o.users@)
            } else if idx == 3 {
                names_of(o.labels@)
            } else if idx == 4 {
                names_of(o.issue_types@)
            } else if idx == 5 {
                names_of(priority_labels(o.labels@, o.labels@.len() as int))
            } else if idx == 6 {
                names_of(o.projects@)
            } else if idx == 7 {
                names_of(o.milestones@)
            } else {
                Seq::empty()
            },
        }
    }

    /// How field `idx` reads on the form.
    pub open spec fn spec_field_display(&self, idx: usize) -> Seq<char> {
        let opts = self.spec_field_options(idx);
        if idx == 0 {
            self.title.buffer@
        } else if idx == 1 {
            spec_summary(self.body.spec_text())
        } else if idx == 2 {
            join(picked_names(self.assignees@, opts), seq![',', ' '])
        } else if idx == 3 {
            join(picked_names(self.labels@, opts), seq![',', ' '])
        } else if idx == 4 {
            pick(self.issue_type, opts)
        } else if idx == 5 {
            pick(self.priority, opts)
        } else if idx == 6 {
            pick(self.project, opts)
        } else if idx == 7 {
            pick(self.milestone, opts)
        } else {
            Seq::empty()
        }
    }

    pub open spec fn spec_get_single(&self, idx: usize) -> Option<usize> {
        if idx == 4 {
            self.issue_type
        } else if idx == 5 {
            self.priority
        } else if idx == 6 {
            self.project
        } else if idx == 7 {
            self.milestone
        } else {
            None
        }
    }

    pub fn new(repo: String) -> (r: IssueForm)
        ensures
            r.repo == repo,
            r.title.buffer@.len() == 0,
            r.title.cursor == 0,
            r.body.wf(),
            r.body.spec_text().len() == 0,
            r.assignees@ == Set::<usize>::empty(),
            r.labels@ == Set::<usize>::empty(),
            r.issue_type.is_none(),
            r.priority.is_none(),
            r.project.is_none(),
            r.milestone.is_none(),
            r.options.is_none(),
            r.field_idx == 0,
    {
        let body = BodyEditor::new();
        proof {
            assert(crate::editor::buffers(body.lines@) =~~= seq![Seq::<char>::empty()]);
        }
        IssueForm {
            repo,
            title: InputState::new(),
            body,
            assignees: HashSet::new(),
            labels: HashSet::new(),
            issue_type: None,
            priority: None,
            project: None,
            milestone: None,
            options: None,
            field_idx: 0,
        }
    }

    /// True for the fields edited with the multi-select popup.
    pub fn is_multi_field(idx: usize) -> (r: bool)
        ensures
            r == (idx == 2 || idx == 3),
    {
        idx == 2 || idx == 3
    }

    /// True for the fields edited with the single-select popup.
    pub fn is_select_field(idx: usize) -> (r: bool)
        ensures
            r == (4 <= idx <= 7),
    {
        4 <= idx && idx <= 7
    }

    /// Labels acting as priorities under the `priority:<value>` convention.
    pub fn priority_options(&self) -> (r: Vec<&IdName>)
        ensures
            match self.options {
                None => r@.len() == 0,
                Some(o) => {
                    &&& r@.len() == priority_labels(o.labels@, o.labels@.len() as int).len()
                    &&& forall|k: int|
                        0 <= k < r@.len() ==> *(#[trigger] r@[k]) == priority_labels(
                            o.labels@,
                            o.labels@.len() as int,
                        )[k]
                },
            },
    {
        let mut out: Vec<&IdName> = Vec::new();
        match &self.options {
            None => {},
            Some(o) => {
                let mut i: usize = 0;
                while i < o.labels.len()
                    invariant
                        i <= o.labels@.len(),
                        out@.len() == priority_labels(o.labels@, i as int).len(),
                        forall|k: int|
                            0 <= k < out@.len() ==> *(#[trigger] out@[k]) == priority_labels(
                                o.labels@,
                                i as int,
                            )[k],
                    decreases o.labels@.len() - i,
                {
                    if priority_option(o.labels[i].name.as_str()) {
                        out.push(&o.labels[i]);
                    }
                    i += 1;
                }
            },
        }
        out
    }

    /// The option list backing a select or multi field, as display names.
    pub fn field_options(&self, idx: usize) -> (r: Vec<String>)
        ensures
            str_views(r@) == self.spec_field_options(idx),
    {
        match &self.options {
            None => Vec::new(),
            Some(o) => {
                if idx == 2 {
                    names(&o.users)
                } else if idx == 3 {
                    names(&o.labels)
                } else if idx == 4 {
                    names(&o.issue_types)
                } else if idx == 5 {
                    let p = self.priority_options();
                    let ghost pl = priority_labels(o.labels@, o.labels@.len() as int);
                    let mut out: Vec<String> = Vec::new();
                    let mut i: usize = 0;
                    while i < p.len()
                        invariant
                            i <= p@.len(),
                            p@.len() == pl.len(),
                            forall|k: int| 0 <= k < p@.len() ==> *(#[trigger] p@[k]) == pl[k],
                            str_views(out@) =~= names_of(pl.subrange(0, i as int)),
                        decreases p@.len() - i,
                    {
                        let ghost prev = out@;
                        out.push(p[i].name.clone());
                        assert(str_views(out@) =~= str_views(prev).push(pl[i as int].name@));
                        assert(names_of(pl.subrange(0, i + 1)) =~= names_of(
                            pl.subrange(0, i as int),
                        ).push(pl[i as int].name@));
                        i += 1;
                    }
                    assert(pl.subrange(0, pl.len() as int) =~= pl);
                    out
                } else if idx == 6 {
                    names(&o.projects)
                } else if idx == 7 {
                    names(&o.milestones)
                } else {
                    let out: Vec<String> = Vec::new();
                    assert(str_views(out@) =~= Seq::<Seq<char>>::empty());
                    out
                }
            },
        }
    }

    /// How field `idx` reads on the form: the title, the description's
    /// summary, the selected names joined by `", "`, or the single choice.
    pub fn field_display(&self, idx: usize) -> (r: String)
        ensures
            r@ == self.spec_field_display(idx),
    {
        let opts = self.field_options(idx);
        let ghost ov = str_views(opts@);
        if idx == 0 {
            self.title.buffer.clone()
        } else if idx == 1 {
            self.body.summary()
        } else if idx == 2 || idx == 3 {
            let set = if idx == 2 {
                &self.assignees
            } else {
                &self.labels
            };
            let picked = selected_names(set, &opts);
            proof {
                reveal_strlit(", ");
            }
            assert(", "@ =~= seq![',', ' ']);
            join_strings(&picked, ", ")
        } else if 4 <= idx && idx <= 7 {
            let sel = self.get_single(idx);
            match sel {
                Some(i) => if i < opts.len() {
                    assert(ov[i as int] == opts@[i as int]@);
                    opts[i].clone()
                } else {
                    String::new()
                },
                None => String::new(),
            }
        } else {
            String::new()
        }
    }

    /// Set a single-select field; `None` clears it. Other indices are
    /// ignored.
    pub fn set_single(&mut self, idx: usize, choice: Option<usize>)
        ensures
            final(self).issue_type == (if idx == 4 { choice } else { old(self).issue_type }),
            final(self).priority == (if idx == 5 { choice } else { old(self).priority }),
            final(self).project == (if idx == 6 { choice } else { old(self).project }),
            final(self).milestone == (if idx == 7 { choice } else { old(self).milestone }),
            final(self).repo == old(self).repo,
            final(self).title == old(self).title,
            final(self).body == old(self).body,
            final(self).assignees == old(self).assignees,
            final(self).labels == old(self).labels,
            final(self).options == old(self).options,
            final(self).field_idx == old(self).field_idx,
    {
        if idx == 4 {
            self.issue_type = choice;
        } else if idx == 5 {
            self.priority = choice;
        } else if idx == 6 {
            self.project = choice;
        } else if idx == 7 {
            self.milestone = choice;
        }
    }

    pub fn get_single(&self, idx: usize) -> (r: Option<usize>)
        ensures
            r == self.spec_get_single(idx),
    {
        if idx == 4 {
            self.issue_type
        } else if idx == 5 {
            self.priority
        } else if idx == 6 {
            self.project
        } else if idx == 7 {
            self.milestone
        } else {
            None
        }
    }

    /// The selection set of a multi field: assignees for field 2, labels
    /// otherwise.
    pub fn multi_set(&self, idx: usize) -> (r: &HashSet<usize>)
        ensures
            r@ == (if idx == 2 { self.assignees@ } else { self.labels@ }),
    {
        if idx == 2 {
            &self.assignees
        } else {
            &self.labels
        }
    }

    /// The selection set of a multi field, for editing.
    pub fn multi_set_mut(&mut self, idx: usize) -> (r: &mut HashSet<usize>)
        ensures
            *r == (if idx == 2 { old(self).assignees } else { old(self).labels }),
            idx == 2 ==> final(self).assignees == *final(r) && final(self).labels == old(self).labels,
            idx != 2 ==> final(self).labels == *final(r) && final(self).assignees == old(
                self,
            ).assignees,
            final(self).repo == old(self).repo,
            final(self).title == old(self).title,
            final(self).body == old(self).body,
            final(self).issue_type == old(self).issue_type,
            final(self).priority == old(self).priority,
            final(self).project == old(self).project,
            final(self).milestone == old(self).milestone,
            final(self).options == old(self).options,
            final(self).field_idx == old(self).field_idx,
    {
        if idx == 2 {
            &mut self.assignees
        } else {
            &mut self.labels
        }
    }

    /// Assemble the create parameters: `None` until the options have landed
    /// and while the trimmed title is empty. Label ids come in position
    /// order, with the chosen priority label's id appended unless already
    /// picked.
    /// What `build_params` gives (see there).
    pub open spec fn params_for(&self, r: Option<NewIssueParams>) -> bool {
        match self.options {
            None => r.is_none(),
            Some(o) => if trim(self.title.buffer@).len() == 0 {
                r.is_none()
            } else {
                r.is_some() && {
                    let p = r.unwrap();
                    let base = ids_of(self.labels@, o.labels@);
                    let prio = pick_id(
                        self.priority,
                        priority_labels(o.labels@, o.labels@.len() as int),
                    );
                    &&& p.repo_id@ == o.repo_id@
                    &&& p.title@ == trim(self.title.buffer@)
                    &&& p.body@ == trim_end(self.body.spec_text())
                    &&& str_views(p.assignee_ids@) == ids_of(
                        self.assignees@,
                        o.users@,
                    )
                    &&& str_views(p.label_ids@) == (match prio {
                        Some(id) => if base.contains(id) {
                            base
                        } else {
                            base.push(id)
                        },
                        None => base,
                    })
                    &&& opt_string_view(p.milestone_id) == pick_id(
                        self.milestone,
                        o.milestones@,
                    )
                    &&& opt_string_view(p.issue_type_id) == pick_id(
                        self.issue_type,
                        o.issue_types@,
                    )
                    &&& opt_string_view(p.project_id) == pick_id(self.project, o.projects@)
                }
            },
        }
    }

    pub fn build_params(&self) -> (r: Option<NewIssueParams>)
        ensures
            self.params_for(r),
    {
        let o = match &self.options {
            Some(o) => o,
            None => return None,
        };
        let title = trim_str(self.title.buffer.as_str());
        if title.as_str().is_empty() {
            return None;
        }
        let mut label_ids = selected_ids(&self.labels, &o.labels);
        let ghost base = ids_of(self.labels@, o.labels@);
        let prio_opts = self.priority_options();
        let ghost pl = priority_labels(o.labels@, o.labels@.len() as int);
        let prio: Option<String> = match self.priority {
            Some(p) => if p < prio_opts.len() {
                Some(prio_opts[p].id.clone())
            } else {
                None
            },
            None => None,
        };
        assert(opt_string_view(prio) == pick_id(self.priority, pl));
        match prio {
            Some(label) => {
                let mut present = false;
                let mut i: usize = 0;
                while i < label_ids.len()
                    invariant
                        i <= label_ids@.len(),
                        str_views(label_ids@) == base,
                        present == exists|k: int| 0 <= k < i && label_ids@[k]@ == label@,
                    decreases label_ids@.len() - i,
                {
                    if label_ids[i] == label {
                        present = true;
                    }
                    i += 1;
                }
                assert(present == base.contains(label@)) by {
                    if present {
                        let k = choose|k: int| 0 <= k < label_ids@.len() && label_ids@[k]@ == label@;
                        assert(base[k] == label@);
                    }
                    if base.contains(label@) {
                        let k = choose|k: int| 0 <= k < base.len() && base[k] == label@;
                        assert(label_ids@[k]@ == label@);
                    }
                }
                if !present {
                    let ghost before = label_ids@;
                    label_ids.push(label);
                    assert(str_views(label_ids@) =~= before.map_values(
                        |x: String| x@,
                    ).push(label@));
                }
            },
            None => {},
        }
        let text = self.body.text();
        let body = trim_end_str(text.as_str());
        Some(
            NewIssueParams {
                repo_id: o.repo_id.clone(),
                title,
                body,
                assignee_ids: selected_ids(&self.assignees, &o.users),
                label_ids,
                milestone_id: chosen_id(self.milestone, &o.milestones),
                issue_type_id: chosen_id(self.issue_type, &o.issue_types),
                project_id: chosen_id(self.project, &o.projects),
            },
        )
    }
}

/// The created issue carries the description as written: the body editor's
/// lines joined by newlines, less only the whitespace at its very end. So
/// the body is a prefix of that text, everything cut off is whitespace,
/// and the body does not itself end in whitespace. The title likewise is
/// the typed title without surrounding whitespace, and it is never empty.
pub proof fn law_created_issue_keeps_the_description(f: IssueForm, r: Option<NewIssueParams>)
    requires
        f.params_for(r),
        r is Some,
    ensures
        ({
            let p = r.unwrap();
            let t = f.body.spec_text();
            &&& p.body@.len() <= t.len()
            &&& p.body@ == t.subrange(0, p.body@.len() as int)
            &&& forall|k: int| p.body@.len() <= k < t.len() ==> crate::text::is_ws(#[trigger] t[k])
            &&& p.body@.len() > 0 ==> !crate::text::is_ws(p.body@.last())
            &&& p.title@.len() > 0
            &&& p.repo_id@ == f.options.unwrap().repo_id@
        }),
{
    let t = f.body.spec_text();
    crate::text::lemma_trail_ws(t);
    let p = r.unwrap();
    assert(p.body@ == t.subrange(0, t.len() - crate::text::trail_ws(t)));
    if p.body@.len() > 0 {
        assert(p.body@.last() == t[t.len() - crate::text::trail_ws(t) - 1]);
    }
}

} // verus!
