//! The template directories of a project, in Django's loader order for the
//! standard Django backend: the configured `DIRS` first, then each installed
//! app's existing `templates` directory when `APP_DIRS` is true.
use vstd::prelude::*;

use crate::facts::{
    dir_views, duplicate_reasons, reason_views, same_dir, same_reason, AppFact, DirSourceView,
    Fact, Field, Reason, ReasonSource, ReasonView, SourceView, TemplateBackendFact,
    TemplateDirFact, TemplateDirSource,
};
use crate::paths::{joined, path_join};
use crate::text::{contains_str, str_eq, views};

verus! {

broadcast use vstd::seq::Seq::group_seq_extra;

/// Directories and reasons gathered so far.
pub struct DirsState {
    pub dirs: Seq<(Seq<char>, DirSourceView)>,
    pub reasons: Seq<ReasonView>,
}

/// `rs` with each of `new` added unless an equal reason is there already.
pub open spec fn with_unique(rs: Seq<ReasonView>, new: Seq<ReasonView>) -> Seq<ReasonView>
    decreases new.len(),
{
    if new.len() == 0 {
        rs
    } else {
        let r = with_unique(rs, new.drop_last());
        if r.contains(new.last()) {
            r
        } else {
            r.push(new.last())
        }
    }
}

/// The state with the directories and reasons of a backend's `DIRS` fact.
pub open spec fn backend_dirs_step(st: DirsState, f: Fact<Vec<TemplateDirFact>>) -> DirsState {
    match f {
        Fact::Known { value } => DirsState { dirs: st.dirs + dir_views(value@), reasons: st.reasons },
        Fact::Partial { value, reasons } => DirsState {
            dirs: st.dirs + dir_views(value@),
            reasons: with_unique(st.reasons, reason_views(reasons@)),
        },
        Fact::Unknown { reasons } => DirsState {
            dirs: st.dirs,
            reasons: with_unique(st.reasons, reason_views(reasons@)),
        },
        Fact::Ambiguous { reasons, .. } => DirsState {
            dirs: st.dirs,
            reasons: with_unique(st.reasons, reason_views(reasons@)),
        },
    }
}

/// `ds` with the existing `templates` directory of each app, each once.
pub open spec fn app_template_dirs(
    ds: Seq<(Seq<char>, DirSourceView)>,
    apps: Seq<AppFact>,
    existing: Seq<Seq<char>>,
) -> Seq<(Seq<char>, DirSourceView)>
    decreases apps.len(),
{
    if apps.len() == 0 {
        ds
    } else {
        let r = app_template_dirs(ds, apps.drop_last(), existing);
        let a = apps.last();
        let p = joined(a.path@, "templates"@);
        let d = (p, DirSourceView::AppDir(a.module@));
        if existing.contains(p) && !r.contains(d) {
            r.push(d)
        } else {
            r
        }
    }
}

/// The state with the app directories of the app registry fact.
pub open spec fn app_registry_step(st: DirsState, apps: Fact<Vec<AppFact>>, existing: Seq<Seq<char>>) -> DirsState {
    match apps {
        Fact::Known { value } => DirsState {
            dirs: app_template_dirs(st.dirs, value@, existing),
            reasons: st.reasons,
        },
        Fact::Partial { value, reasons } => DirsState {
            dirs: app_template_dirs(st.dirs, value@, existing),
            reasons: with_unique(st.reasons, reason_views(reasons@)),
        },
        Fact::Unknown { reasons } => DirsState {
            dirs: st.dirs,
            reasons: with_unique(st.reasons, reason_views(reasons@)),
        },
        Fact::Ambiguous { reasons, .. } => DirsState {
            dirs: st.dirs,
            reasons: with_unique(st.reasons, reason_views(reasons@)),
        },
    }
}

/// The state after a backend's `APP_DIRS` fact: app directories when it is
/// true, and its reasons in any case.
pub open spec fn app_dirs_step(
    st: DirsState,
    app_dirs: Fact<bool>,
    apps: Fact<Vec<AppFact>>,
    existing: Seq<Seq<char>>,
) -> DirsState {
    match app_dirs {
        Fact::Known { value } => if value {
            app_registry_step(st, apps, existing)
        } else {
            st
        },
        Fact::Partial { value, reasons } => {
            let st1 = DirsState {
                dirs: st.dirs,
                reasons: with_unique(st.reasons, reason_views(reasons@)),
            };
            if value {
                app_registry_step(st1, apps, existing)
            } else {
                st1
            }
        },
        Fact::Unknown { reasons } => DirsState {
            dirs: st.dirs,
            reasons: with_unique(st.reasons, reason_views(reasons@)),
        },
        Fact::Ambiguous { reasons, .. } => DirsState {
            dirs: st.dirs,
            reasons: with_unique(st.reasons, reason_views(reasons@)),
        },
    }
}

/// The reason for a backend whose `BACKEND` is not known.
pub open spec fn unknown_backend_reason() -> ReasonView {
    ReasonView {
        field: Field::TemplateDirs,
        source: SourceView::Unknown,
        message: "TEMPLATES BACKEND is not known; skipped template directory assembly for this backend"@,
    }
}

/// The state after one backend: a backend without `BACKEND` adds a reason;
/// one other than Django's template backend adds nothing.
pub open spec fn backend_step(
    st: DirsState,
    b: TemplateBackendFact,
    apps: Fact<Vec<AppFact>>,
    existing: Seq<Seq<char>>,
) -> DirsState {
    match b.backend {
        None => DirsState { dirs: st.dirs, reasons: st.reasons.push(unknown_backend_reason()) },
        Some(name) => if name@ == "django.template.backends.django.DjangoTemplates"@ {
            app_dirs_step(backend_dirs_step(st, b.dirs), b.app_dirs, apps, existing)
        } else {
            st
        },
    }
}

pub open spec fn backends_step(
    st: DirsState,
    bs: Seq<TemplateBackendFact>,
    apps: Fact<Vec<AppFact>>,
    existing: Seq<Seq<char>>,
) -> DirsState
    decreases bs.len(),
{
    if bs.len() == 0 {
        st
    } else {
        backend_step(backends_step(st, bs.drop_last(), apps, existing), bs.last(), apps, existing)
    }
}

/// `r` holds the directories of `st`, partial when it has reasons.
pub open spec fn assembled(st: DirsState, r: Fact<Vec<TemplateDirFact>>) -> bool {
    if st.reasons.len() == 0 {
        r matches Fact::Known { value } && dir_views(value@) == st.dirs
    } else {
        r matches Fact::Partial { value, reasons } && dir_views(value@) == st.dirs && reason_views(
            reasons@,
        ) == st.reasons
    }
}

/// The template directories of the backends and apps; a directory exists when
/// it is among `existing`.
pub open spec fn template_dirs_fact(
    backends: Fact<Vec<TemplateBackendFact>>,
    apps: Fact<Vec<AppFact>>,
    existing: Seq<Seq<char>>,
    r: Fact<Vec<TemplateDirFact>>,
) -> bool {
    match backends {
        Fact::Known { value } => assembled(
            backends_step(DirsState { dirs: Seq::empty(), reasons: Seq::empty() }, value@, apps, existing),
            r,
        ),
        Fact::Partial { value, reasons } => assembled(
            backends_step(
                DirsState { dirs: Seq::empty(), reasons: reason_views(reasons@) },
                value@,
                apps,
                existing,
            ),
            r,
        ),
        Fact::Unknown { reasons } => r matches Fact::Unknown { reasons: rs } && reason_views(rs@)
            == reason_views(reasons@),
        Fact::Ambiguous { reasons, .. } => r matches Fact::Unknown { reasons: rs } && reason_views(
            rs@,
        ) == reason_views(reasons@),
    }
}

pub fn contains_reason(rs: &Vec<Reason>, r: &Reason) -> (b: bool)
    ensures
        b == reason_views(rs@).contains(r@),
{
    let mut i: usize = 0;
    while i < rs.len()
        invariant
            i <= rs.len(),
            forall|j: int| 0 <= j < i ==> (#[trigger] rs@[j])@ != r@,
        decreases rs.len() - i,
    {
        if same_reason(&rs[i], r) {
            assert(reason_views(rs@)[i as int] == r@);
            return true;
        }
        i = i + 1;
    }
    assert forall|j: int| 0 <= j < reason_views(rs@).len() implies reason_views(rs@)[j] != r@ by {
        assert(reason_views(rs@)[j] == rs@[j]@);
    }
    false
}

/// Adds each of `new` to `reasons` unless an equal reason is there already.
pub fn extend_unique_reasons(reasons: &mut Vec<Reason>, new: &Vec<Reason>)
    ensures
        reason_views(final(reasons)@) == with_unique(reason_views(old(reasons)@), reason_views(new@)),
{
    let ghost start = reason_views(reasons@);
    let ghost nv = reason_views(new@);
    let mut i: usize = 0;
    while i < new.len()
        invariant
            i <= new.len(),
            nv == reason_views(new@),
            reason_views(reasons@) == with_unique(start, nv.take(i as int)),
        decreases new.len() - i,
    {
        assert(nv.take(i + 1).drop_last() =~= nv.take(i as int));
        assert(nv.take(i + 1).last() == new@[i as int]@);
        if !contains_reason(reasons, &new[i]) {
            let ghost before = reason_views(reasons@);
            reasons.push(new[i].duplicate());
            assert(reason_views(reasons@) =~= before.push(new@[i as int]@));
        }
        i = i + 1;
    }
    assert(nv.take(new.len() as int) =~= nv);
}

fn contains_dir(dirs: &Vec<TemplateDirFact>, d: &TemplateDirFact) -> (b: bool)
    ensures
        b == dir_views(dirs@).contains(d@),
{
    let mut i: usize = 0;
    while i < dirs.len()
        invariant
            i <= dirs.len(),
            forall|j: int| 0 <= j < i ==> (#[trigger] dirs@[j])@ != d@,
        decreases dirs.len() - i,
    {
        if same_dir(&dirs[i], d) {
            assert(dir_views(dirs@)[i as int] == d@);
            return true;
        }
        i = i + 1;
    }
    assert forall|j: int| 0 <= j < dir_views(dirs@).len() implies dir_views(dirs@)[j] != d@ by {
        assert(dir_views(dirs@)[j] == dirs@[j]@);
    }
    false
}

/// Adds the existing `templates` directory of each app, each once.
pub fn push_existing_app_template_dirs(
    dirs: &mut Vec<TemplateDirFact>,
    apps: &Vec<AppFact>,
    existing: &Vec<String>,
)
    ensures
        dir_views(final(dirs)@) == app_template_dirs(dir_views(old(dirs)@), apps@, views(existing@)),
{
    let ghost start = dir_views(dirs@);
    let mut i: usize = 0;
    while i < apps.len()
        invariant
            i <= apps.len(),
            dir_views(dirs@) == app_template_dirs(start, apps@.take(i as int), views(existing@)),
        decreases apps.len() - i,
    {
        assert(apps@.take(i + 1).drop_last() =~= apps@.take(i as int));
        assert(apps@.take(i + 1).last() == apps@[i as int]);
        let app = &apps[i];
        let path = path_join(app.path.as_str(), "templates");
        if contains_str(existing, path.as_str()) {
            let dir = TemplateDirFact {
                path,
                source: TemplateDirSource::AppDir { app: app.module.duplicate() },
            };
            if !contains_dir(dirs, &dir) {
                let ghost before = dir_views(dirs@);
                dirs.push(dir);
                assert(dir_views(dirs@) =~= before.push(dir@));
            }
        }
        i = i + 1;
    }
    assert(apps@.take(apps.len() as int) =~= apps@);
}

fn duplicate_dirs(v: &Vec<TemplateDirFact>) -> (r: Vec<TemplateDirFact>)
    ensures
        r@ == v@,
{
    let mut out: Vec<TemplateDirFact> = Vec::new();
    let mut i: usize = 0;
    while i < v.len()
        invariant
            i <= v.len(),
            out@ == v@.take(i as int),
        decreases v.len() - i,
    {
        out.push(v[i].duplicate());
        assert(out@ =~= v@.take(i + 1));
        i = i + 1;
    }
    assert(v@.take(v.len() as int) =~= v@);
    out
}

fn append_app_template_dirs(
    dirs: &mut Vec<TemplateDirFact>,
    reasons: &mut Vec<Reason>,
    apps: &Fact<Vec<AppFact>>,
    existing: &Vec<String>,
)
    ensures
        ({
            let st = app_registry_step(
                DirsState { dirs: dir_views(old(dirs)@), reasons: reason_views(old(reasons)@) },
                *apps,
                views(existing@),
            );
            dir_views(final(dirs)@) == st.dirs && reason_views(final(reasons)@) == st.reasons
        }),
{
    match apps {
        Fact::Known { value } => push_existing_app_template_dirs(dirs, value, existing),
        Fact::Partial { value, reasons: app_reasons } => {
            push_existing_app_template_dirs(dirs, value, existing);
            extend_unique_reasons(reasons, app_reasons);
        },
        Fact::Unknown { reasons: app_reasons } => extend_unique_reasons(reasons, app_reasons),
        Fact::Ambiguous { reasons: app_reasons, .. } => extend_unique_reasons(reasons, app_reasons),
    }
}

fn append_app_dirs(
    dirs: &mut Vec<TemplateDirFact>,
    reasons: &mut Vec<Reason>,
    app_dirs: &Fact<bool>,
    apps: &Fact<Vec<AppFact>>,
    existing: &Vec<String>,
)
    ensures
        ({
            let st = app_dirs_step(
                DirsState { dirs: dir_views(old(dirs)@), reasons: reason_views(old(reasons)@) },
                *app_dirs,
                *apps,
                views(existing@),
            );
            dir_views(final(dirs)@) == st.dirs && reason_views(final(reasons)@) == st.reasons
        }),
{
    match app_dirs {
        Fact::Known { value } => {
            if *value {
                append_app_template_dirs(dirs, reasons, apps, existing);
            }
        },
        Fact::Partial { value, reasons: app_dir_reasons } => {
            extend_unique_reasons(reasons, app_dir_reasons);
            if *value {
                append_app_template_dirs(dirs, reasons, apps, existing);
            }
        },
        Fact::Unknown { reasons: app_dir_reasons } => extend_unique_reasons(reasons, app_dir_reasons),
        Fact::Ambiguous { reasons: app_dir_reasons, .. } => extend_unique_reasons(
            reasons,
            app_dir_reasons,
        ),
    }
}

fn append_backend_dirs(
    dirs: &mut Vec<TemplateDirFact>,
    reasons: &mut Vec<Reason>,
    backend_dirs: &Fact<Vec<TemplateDirFact>>,
)
    ensures
        ({
            let st = backend_dirs_step(
                DirsState { dirs: dir_views(old(dirs)@), reasons: reason_views(old(reasons)@) },
                *backend_dirs,
            );
            dir_views(final(dirs)@) == st.dirs && reason_views(final(reasons)@) == st.reasons
        }),
{
    match backend_dirs {
        Fact::Known { value } => {
            let ghost before = dir_views(dirs@);
            let mut copy = duplicate_dirs(value);
            dirs.append(&mut copy);
            assert(dir_views(dirs@) =~= before + dir_views(value@));
        },
        Fact::Partial { value, reasons: dir_reasons } => {
            let ghost before = dir_views(dirs@);
            let mut copy = duplicate_dirs(value);
            dirs.append(&mut copy);
            assert(dir_views(dirs@) =~= before + dir_views(value@));
            extend_unique_reasons(reasons, dir_reasons);
        },
        Fact::Unknown { reasons: dir_reasons } => extend_unique_reasons(reasons, dir_reasons),
        Fact::Ambiguous { reasons: dir_reasons, .. } => extend_unique_reasons(reasons, dir_reasons),
    }
}

/// Whether the backend is Django's template backend; a backend without a known
/// `BACKEND` adds a reason and is not.
fn is_django_template_backend(backend: &TemplateBackendFact, reasons: &mut Vec<Reason>) -> (r: bool)
    ensures
        r == (backend.backend matches Some(name) && name@
            == "django.template.backends.django.DjangoTemplates"@),
        reason_views(final(reasons)@) == (if backend.backend is None {
            reason_views(old(reasons)@).push(unknown_backend_reason())
        } else {
            reason_views(old(reasons)@)
        }),
{
    match &backend.backend {
        None => {
            let ghost before = reason_views(reasons@);
            reasons.push(
                Reason::new(
                    Field::TemplateDirs,
                    ReasonSource::Unknown,
                    "TEMPLATES BACKEND is not known; skipped template directory assembly for this backend".to_string(),
                ),
            );
            assert(reason_views(reasons@) =~= before.push(unknown_backend_reason()));
            false
        },
        Some(name) => str_eq(name.as_str(), "django.template.backends.django.DjangoTemplates"),
    }
}

fn assemble_template_backend_dirs(
    backends: &Vec<TemplateBackendFact>,
    reasons: Vec<Reason>,
    apps: &Fact<Vec<AppFact>>,
    existing: &Vec<String>,
) -> (r: Fact<Vec<TemplateDirFact>>)
    ensures
        assembled(
            backends_step(
                DirsState { dirs: Seq::empty(), reasons: reason_views(reasons@) },
                backends@,
                *apps,
                views(existing@),
            ),
            r,
        ),
{
    let ghost start = DirsState { dirs: Seq::empty(), reasons: reason_views(reasons@) };
    let mut reasons = reasons;
    let mut dirs: Vec<TemplateDirFact> = Vec::new();
    let mut i: usize = 0;
    while i < backends.len()
        invariant
            i <= backends.len(),
            ({
                let st = backends_step(start, backends@.take(i as int), *apps, views(existing@));
                dir_views(dirs@) == st.dirs && reason_views(reasons@) == st.reasons
            }),
        decreases backends.len() - i,
    {
        assert(backends@.take(i + 1).drop_last() =~= backends@.take(i as int));
        assert(backends@.take(i + 1).last() == backends@[i as int]);
        let backend = &backends[i];
        if is_django_template_backend(backend, &mut reasons) {
            append_backend_dirs(&mut dirs, &mut reasons, &backend.dirs);
            append_app_dirs(&mut dirs, &mut reasons, &backend.app_dirs, apps, existing);
        }
        i = i + 1;
    }
    assert(backends@.take(backends.len() as int) =~= backends@);
    if reasons.len() == 0 {
        Fact::Known { value: dirs }
    } else {
        Fact::Partial { value: dirs, reasons }
    }
}

/// The template directories of a project from its `TEMPLATES` fact and its
/// installed apps: see [`template_dirs_fact`]. Whether an app's `templates`
/// directory exists is whether it is among `existing`.
pub fn assemble_template_dirs(
    template_backends: &Fact<Vec<TemplateBackendFact>>,
    app_registry: &Fact<Vec<AppFact>>,
    existing: &Vec<String>,
) -> (r: Fact<Vec<TemplateDirFact>>)
    ensures
        template_dirs_fact(*template_backends, *app_registry, views(existing@), r),
{
    match template_backends {
        Fact::Known { value } => {
            let none: Vec<Reason> = Vec::new();
            assert(reason_views(none@) =~= Seq::<ReasonView>::empty());
            assemble_template_backend_dirs(value, none, app_registry, existing)
        },
        Fact::Partial { value, reasons } => assemble_template_backend_dirs(
            value,
            duplicate_reasons(reasons),
            app_registry,
            existing,
        ),
        Fact::Unknown { reasons } => Fact::Unknown { reasons: duplicate_reasons(reasons) },
        Fact::Ambiguous { reasons, .. } => Fact::Unknown { reasons: duplicate_reasons(reasons) },
    }
}

} // verus!
