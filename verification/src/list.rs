//! `plexi app list`: installed apps in two groups (global and workspace),
//! each row with the app's id, name, version and a badge for bundled, example
//! and workspace-declared apps.

use vstd::prelude::*;
use crate::text::{chars_of, eq_chars, pad_right, pad_right_of, push_all, push_lit, string_of, texts_contain, texts_of};

verus! {

/// An installed app as the list shows it.
pub struct ListedApp {
    pub id: String,
    pub name: String,
    /// The version in the app's manifest.
    pub manifest_version: String,
    /// Installed in the global apps directory (else in a workspace).
    pub global: bool,
}

/// The version of the first pair for `id`.
pub open spec fn version_for(versions: Seq<(Seq<char>, Seq<char>)>, id: Seq<char>) -> Option<Seq<char>>
    decreases versions.len(),
{
    if versions.len() == 0 {
        None
    } else if versions[0].0 == id {
        Some(versions[0].1)
    } else {
        version_for(versions.skip(1), id)
    }
}

pub open spec fn pairs_view(v: Seq<(String, String)>) -> Seq<(Seq<char>, Seq<char>)> {
    v.map_values(|p: (String, String)| (p.0@, p.1@))
}

fn lookup_version(versions: &Vec<(String, String)>, id: &str) -> (r: Option<String>)
    ensures
        match r {
            Some(v) => version_for(pairs_view(versions@), id@) == Some(v@),
            None => version_for(pairs_view(versions@), id@) is None,
        },
{
    let ghost pv = pairs_view(versions@);
    let idc = chars_of(id);
    let mut i: usize = 0;
    assert(pv.skip(0) =~= pv);
    while i < versions.len()
        invariant
            i <= versions@.len(),
            pv == pairs_view(versions@),
            idc@ == id@,
            version_for(pv, id@) == version_for(pv.skip(i as int), id@),
        decreases versions@.len() - i,
    {
        assert(pv.skip(i as int).skip(1) =~= pv.skip(i + 1));
        assert(pv.skip(i as int)[0] == (versions@[i as int].0@, versions@[i as int].1@));
        let c = chars_of(versions[i].0.as_str());
        if eq_chars(&c, &idc) {
            return Some(versions[i].1.clone());
        }
        i = i + 1;
    }
    None
}

/// The badge of an app: `[core]`, `[example]`, `[workspace]`, tested in
/// that order, or none.
pub open spec fn spec_badge(id: Seq<char>, core: Seq<Seq<char>>, examples: Seq<Seq<char>>, declared: Seq<Seq<char>>) -> Seq<char> {
    if core.contains(id) {
        "[core]"@
    } else if examples.contains(id) {
        "[example]"@
    } else if declared.contains(id) {
        "[workspace]"@
    } else {
        seq![]
    }
}

pub fn app_badge(id: &str, core: &Vec<String>, examples: &Vec<String>, declared: &Vec<String>) -> (r: String)
    ensures
        r@ == spec_badge(id@, texts_of(core@), texts_of(examples@), texts_of(declared@)),
{
    if texts_contain(core, id) {
        "[core]".to_owned()
    } else if texts_contain(examples, id) {
        "[example]".to_owned()
    } else if texts_contain(declared, id) {
        "[workspace]".to_owned()
    } else {
        String::new()
    }
}

/// A row: id and name padded to 30 columns, the version, then the badge
/// after two spaces when there is one.
pub open spec fn spec_row(id: Seq<char>, name: Seq<char>, version: Seq<char>, badge: Seq<char>) -> Seq<char> {
    "  "@ + pad_right(id, 30) + " "@ + pad_right(name, 30) + " "@ + version + if badge.len() == 0 {
        Seq::<char>::empty()
    } else {
        "  "@ + badge
    }
}

pub fn app_row(id: &str, name: &str, version: &str, badge: &str) -> (r: String)
    ensures
        r@ == spec_row(id@, name@, version@, badge@),
{
    let mut out: Vec<char> = Vec::new();
    push_lit(&mut out, "  ");
    let a = pad_right_of(id, 30);
    push_all(&mut out, &a);
    push_lit(&mut out, " ");
    let b = pad_right_of(name, 30);
    push_all(&mut out, &b);
    push_lit(&mut out, " ");
    push_lit(&mut out, version);
    if badge.unicode_len() != 0 {
        push_lit(&mut out, "  ");
        push_lit(&mut out, badge);
    }
    string_of(&out)
}

pub open spec fn app_view(a: ListedApp) -> (Seq<char>, Seq<char>, Seq<char>, bool) {
    (a.id@, a.name@, a.manifest_version@, a.global)
}

/// The row of one app: its version from the global apps directory when
/// known there, else its manifest's.
pub open spec fn row_of(
    a: (Seq<char>, Seq<char>, Seq<char>, bool),
    versions: Seq<(Seq<char>, Seq<char>)>,
    core: Seq<Seq<char>>,
    examples: Seq<Seq<char>>,
    declared: Seq<Seq<char>>,
) -> Seq<char> {
    spec_row(
        a.0,
        a.1,
        match version_for(versions, a.0) {
            Some(v) => v,
            None => a.2,
        },
        spec_badge(a.0, core, examples, declared),
    )
}

/// The rows of the apps in one group, in order.
pub open spec fn group_rows(
    apps: Seq<(Seq<char>, Seq<char>, Seq<char>, bool)>,
    global: bool,
    versions: Seq<(Seq<char>, Seq<char>)>,
    core: Seq<Seq<char>>,
    examples: Seq<Seq<char>>,
    declared: Seq<Seq<char>>,
) -> Seq<Seq<char>>
    decreases apps.len(),
{
    if apps.len() == 0 {
        seq![]
    } else {
        let rest = group_rows(apps.drop_last(), global, versions, core, examples, declared);
        if apps.last().3 == global {
            rest.push(row_of(apps.last(), versions, core, examples, declared))
        } else {
            rest
        }
    }
}

/// What `plexi app list` prints: a hint when nothing is installed; else the
/// global group under its directory, then (after a blank line) the
/// workspace group under the workspace root, each only when not empty (the
/// workspace group also needs a workspace root).
pub open spec fn spec_list_lines(
    apps: Seq<(Seq<char>, Seq<char>, Seq<char>, bool)>,
    versions: Seq<(Seq<char>, Seq<char>)>,
    core: Seq<Seq<char>>,
    examples: Seq<Seq<char>>,
    declared: Seq<Seq<char>>,
    apps_dir: Seq<char>,
    workspace_root: Option<Seq<char>>,
) -> Seq<Seq<char>> {
    if apps.len() == 0 {
        seq!["no apps installed"@, "install one with: plexi app install <source>[@ref]"@]
    } else {
        let g = group_rows(apps, true, versions, core, examples, declared);
        let w = group_rows(apps, false, versions, core, examples, declared);
        (if g.len() > 0 {
            seq!["Global apps ("@ + apps_dir + ")"@] + g
        } else {
            seq![]
        }) + (if w.len() > 0 && workspace_root is Some {
            seq![Seq::<char>::empty(), "Workspace apps ("@ + workspace_root->0 + ")"@] + w
        } else {
            seq![]
        })
    }
}

pub open spec fn apps_view(v: Seq<ListedApp>) -> Seq<(Seq<char>, Seq<char>, Seq<char>, bool)> {
    v.map_values(|a: ListedApp| app_view(a))
}

fn rows_for(
    apps: &Vec<ListedApp>,
    global: bool,
    versions: &Vec<(String, String)>,
    core: &Vec<String>,
    examples: &Vec<String>,
    declared: &Vec<String>,
) -> (r: Vec<String>)
    ensures
        texts_of(r@) == group_rows(
            apps_view(apps@),
            global,
            pairs_view(versions@),
            texts_of(core@),
            texts_of(examples@),
            texts_of(declared@),
        ),
{
    let ghost av = apps_view(apps@);
    let mut out: Vec<String> = Vec::new();
    let mut i: usize = 0;
    while i < apps.len()
        invariant
            i <= apps@.len(),
            av == apps_view(apps@),
            texts_of(out@) == group_rows(
                av.take(i as int),
                global,
                pairs_view(versions@),
                texts_of(core@),
                texts_of(examples@),
                texts_of(declared@),
            ),
        decreases apps@.len() - i,
    {
        proof {
            assert(av.take(i + 1).drop_last() =~= av.take(i as int));
            assert(av.take(i + 1).last() == app_view(apps@[i as int]));
        }
        let a = &apps[i];
        if a.global == global {
            let version = match lookup_version(versions, a.id.as_str()) {
                Some(v) => v,
                None => a.manifest_version.clone(),
            };
            let badge = app_badge(a.id.as_str(), core, examples, declared);
            let row = app_row(a.id.as_str(), a.name.as_str(), version.as_str(), badge.as_str());
            let ghost before = out@;
            out.push(row);
            assert(texts_of(out@) =~= texts_of(before).push(
                row_of(app_view(apps@[i as int]), pairs_view(versions@), texts_of(core@), texts_of(examples@), texts_of(declared@)),
            ));
        }
        i = i + 1;
    }
    proof {
        assert(av.take(apps@.len() as int) =~= av);
    }
    out
}

fn heading(prefix: &str, dir: &str) -> (r: String)
    ensures
        r@ == prefix@ + dir@ + ")"@,
{
    let mut out: Vec<char> = Vec::new();
    push_lit(&mut out, prefix);
    push_lit(&mut out, dir);
    push_lit(&mut out, ")");
    string_of(&out)
}

pub fn list_lines(
    apps: &Vec<ListedApp>,
    versions: &Vec<(String, String)>,
    core: &Vec<String>,
    examples: &Vec<String>,
    declared: &Vec<String>,
    apps_dir: &str,
    workspace_root: Option<&str>,
) -> (r: Vec<String>)
    ensures
        texts_of(r@) == spec_list_lines(
            apps_view(apps@),
            pairs_view(versions@),
            texts_of(core@),
            texts_of(examples@),
            texts_of(declared@),
            apps_dir@,
            match workspace_root {
                Some(w) => Some(w@),
                None => None,
            },
        ),
{
    let mut out: Vec<String> = Vec::new();
    if apps.len() == 0 {
        out.push("no apps installed".to_owned());
        out.push("install one with: plexi app install <source>[@ref]".to_owned());
        assert(texts_of(out@) =~= seq!["no apps installed"@, "install one with: plexi app install <source>[@ref]"@]);
        return out;
    }
    let g = rows_for(apps, true, versions, core, examples, declared);
    let w = rows_for(apps, false, versions, core, examples, declared);
    assert(texts_of(out@) =~= Seq::<Seq<char>>::empty());
    if g.len() > 0 {
        let ghost before = out@;
        out.push(heading("Global apps (", apps_dir));
        assert(texts_of(out@) =~= texts_of(before).push("Global apps ("@ + apps_dir@ + ")"@));
        let mut i: usize = 0;
        let ghost start = texts_of(out@);
        while i < g.len()
            invariant
                i <= g@.len(),
                texts_of(out@) == start + texts_of(g@).take(i as int),
            decreases g@.len() - i,
        {
            let ghost b = out@;
            out.push(g[i].clone());
            assert(texts_of(out@) =~= texts_of(b).push(g@[i as int]@));
            assert(texts_of(g@).take(i + 1) =~= texts_of(g@).take(i as int).push(g@[i as int]@));
            i = i + 1;
        }
        assert(texts_of(g@).take(g@.len() as int) =~= texts_of(g@));
    }
    let ghost mid = texts_of(out@);
    if w.len() > 0 {
        match workspace_root {
            Some(root) => {
                let ghost before = out@;
                out.push(String::new());
                out.push(heading("Workspace apps (", root));
                assert(texts_of(out@) =~= texts_of(before) + seq![Seq::<char>::empty(), "Workspace apps ("@ + root@ + ")"@]);
                let mut i: usize = 0;
                let ghost start = texts_of(out@);
                while i < w.len()
                    invariant
                        i <= w@.len(),
                        texts_of(out@) == start + texts_of(w@).take(i as int),
                    decreases w@.len() - i,
                {
                    let ghost b = out@;
                    out.push(w[i].clone());
                    assert(texts_of(out@) =~= texts_of(b).push(w@[i as int]@));
                    assert(texts_of(w@).take(i + 1) =~= texts_of(w@).take(i as int).push(w@[i as int]@));
                    i = i + 1;
                }
                assert(texts_of(w@).take(w@.len() as int) =~= texts_of(w@));
            },
            None => {},
        }
    }
    proof {
        let want = spec_list_lines(
            apps_view(apps@),
            pairs_view(versions@),
            texts_of(core@),
            texts_of(examples@),
            texts_of(declared@),
            apps_dir@,
            match workspace_root {
                Some(w) => Some(w@),
                None => None,
            },
        );
        assert(texts_of(out@) =~= want);
    }
    out
}

} // verus!
