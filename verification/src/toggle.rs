//! Enabling and disabling a mod by its file name: a disabled mod carries a
//! fixed suffix, an enabled one does not, and nothing else records the state.

use crate::text::{chars_eq, copy_range, ends_with, from_chars, split, split_on, to_chars, views};
use vstd::prelude::*;

verus! {

/// The suffix that marks a disabled mod.
pub open spec fn suffix() -> Seq<char> {
    seq!['.', 'd', 'i', 's', 'a', 'b', 'l', 'e', 'd']
}

/// Whether a path names a disabled mod.
pub open spec fn is_disabled(path: Seq<char>) -> bool {
    suffix().is_suffix_of(path)
}

/// The path with the suffix appended.
pub open spec fn disabled_form(path: Seq<char>) -> Seq<char> {
    path + suffix()
}

/// The path without the suffixes at its end.
pub open spec fn enabled_form(path: Seq<char>) -> Seq<char>
    decreases path.len(),
{
    if is_disabled(path) {
        enabled_form(path.take(path.len() - suffix().len()))
    } else {
        path
    }
}

/// The path a mod gets when its state is flipped.
pub open spec fn toggled(path: Seq<char>) -> Seq<char> {
    if is_disabled(path) {
        enabled_form(path)
    } else {
        disabled_form(path)
    }
}

/// The path under which a mod has the state asked for.
pub open spec fn target(path: Seq<char>, enabled: bool) -> Seq<char> {
    if enabled {
        enabled_form(path)
    } else if is_disabled(path) {
        path
    } else {
        disabled_form(path)
    }
}

/// The last component of a path.
pub open spec fn file_name(path: Seq<char>) -> Seq<char> {
    split_on(path, '/').last()
}

/// The renames that bring the first `n` paths to the states asked for, in
/// the order of the paths: a path that already has its state gets none.
pub open spec fn renames(paths: Seq<Seq<char>>, enabled: Seq<bool>, n: nat) -> Seq<
    (Seq<char>, Seq<char>),
>
    decreases n,
{
    if n == 0 {
        Seq::empty()
    } else {
        let before = renames(paths, enabled, (n - 1) as nat);
        let path = paths[n - 1];
        let to = target(path, enabled[n - 1]);
        if to == path {
            before
        } else {
            before.push((path, to))
        }
    }
}

/// Whether each mod is among the names selected.
pub open spec fn selected(paths: Seq<Seq<char>>, selection: Seq<Seq<char>>) -> Seq<bool> {
    Seq::new(paths.len(), |i: int| selection.contains(file_name(paths[i])))
}

/// An enabled form carries no suffix.
pub proof fn lemma_enabled_form_is_enabled(path: Seq<char>)
    ensures
        !is_disabled(enabled_form(path)),
    decreases path.len(),
{
    if is_disabled(path) {
        lemma_enabled_form_is_enabled(path.take(path.len() - suffix().len()));
    }
}

/// A path with the suffix appended is disabled, and the path is what stands before the suffix.
pub proof fn lemma_disabled_form(path: Seq<char>)
    ensures
        is_disabled(disabled_form(path)),
        disabled_form(path).take(disabled_form(path).len() - suffix().len()) == path,
{
    let d = disabled_form(path);
    assert(d.skip(d.len() - suffix().len()) =~= suffix());
    assert(d.take(d.len() - suffix().len()) =~= path);
}

/// After the renames every mod has the state asked for, and a mod that had
/// it keeps its name.
pub proof fn lemma_target_has_state(path: Seq<char>, enabled: bool)
    ensures
        is_disabled(target(path, enabled)) == !enabled,
        is_disabled(path) == !enabled ==> target(path, enabled) == path,
{
    lemma_enabled_form_is_enabled(path);
    lemma_disabled_form(path);
}

/// Flipping the state of a mod twice gives back its name, and with it its
/// state, for every name that ends with at most one suffix.
pub proof fn lemma_toggle_twice(path: Seq<char>)
    requires
        is_disabled(path) ==> !is_disabled(path.take(path.len() - suffix().len())),
    ensures
        toggled(toggled(path)) == path,
        is_disabled(toggled(toggled(path))) == is_disabled(path),
{
    if is_disabled(path) {
        let stem = path.take(path.len() - suffix().len());
        assert(enabled_form(path) == enabled_form(stem));
        assert(enabled_form(stem) == stem);
        assert(path.skip(path.len() - suffix().len()) == suffix());
        assert(stem + suffix() =~= path);
    } else {
        lemma_disabled_form(path);
        let d = disabled_form(path);
        assert(enabled_form(d) == enabled_form(path));
    }
}

/// The suffix as characters.
pub fn suffix_chars() -> (v: Vec<char>)
    ensures
        v@ == suffix(),
{
    let v = to_chars(".disabled");
    proof {
        reveal_strlit(".disabled");
        assert(v@ =~= suffix());
    }
    v
}

/// Whether `path` names a disabled mod.
pub fn path_is_disabled(path: &str) -> (r: bool)
    ensures
        r == is_disabled(path@),
{
    let p = to_chars(path);
    let s = suffix_chars();
    ends_with(p.as_slice(), s.as_slice())
}

/// The name under which the mod at `path` is enabled.
pub fn enabled_name(path: &str) -> (r: String)
    ensures
        r@ == enabled_form(path@),
{
    let p = to_chars(path);
    let s = suffix_chars();
    let mut end: usize = p.len();
    proof {
        assert(p@.take(end as int) =~= p@);
    }
    loop
        invariant
            end <= p.len(),
            s@ == suffix(),
            p@ == path@,
            enabled_form(path@) == enabled_form(p@.take(end as int)),
        decreases end,
    {
        let head = copy_range(p.as_slice(), 0, end);
        proof {
            assert(head@ =~= p@.take(end as int));
        }
        if !ends_with(head.as_slice(), s.as_slice()) {
            return from_chars(head.as_slice());
        }
        proof {
            assert(head@.take(head@.len() - suffix().len()) =~= p@.take(end - suffix().len()));
        }
        end = end - s.len();
    }
}

/// The name under which the mod at `path` is disabled: the suffix is appended.
pub fn disabled_name(path: &str) -> (r: String)
    ensures
        r@ == disabled_form(path@),
{
    let mut r = String::from_str(path);
    r.append(".disabled");
    proof {
        reveal_strlit(".disabled");
        assert(".disabled"@ =~= suffix());
    }
    r
}

/// The name the mod at `path` gets when its state is flipped.
pub fn toggle(path: &str) -> (r: String)
    ensures
        r@ == toggled(path@),
{
    if path_is_disabled(path) {
        enabled_name(path)
    } else {
        disabled_name(path)
    }
}

/// One file to be renamed.
#[derive(Debug, Clone)]
pub struct Rename {
    pub from: String,
    pub to: String,
}

impl View for Rename {
    type V = (Seq<char>, Seq<char>);

    open spec fn view(&self) -> (Seq<char>, Seq<char>) {
        (self.from@, self.to@)
    }
}

/// The views of the paths, in order.
pub open spec fn path_views(paths: Seq<String>) -> Seq<Seq<char>> {
    paths.map_values(|p: String| p@)
}

/// The views of the renames, in order.
pub open spec fn rename_views(ops: Seq<Rename>) -> Seq<(Seq<char>, Seq<char>)> {
    ops.map_values(|r: Rename| r@)
}

/// The last component of `path`.
pub fn file_name_of(path: &str) -> (r: String)
    ensures
        r@ == file_name(path@),
{
    let p = to_chars(path);
    let pieces = split(p.as_slice(), '/');
    proof {
        crate::text::lemma_split_on_has_piece(p@, '/');
        assert(views(pieces@).len() == pieces@.len());
        assert(views(pieces@).last() == pieces@.last()@);
    }
    from_chars(pieces[pieces.len() - 1].as_slice())
}

/// Whether `name` is among `selection`.
pub fn is_selected(selection: &Vec<String>, name: &str) -> (r: bool)
    ensures
        r == path_views(selection@).contains(name@),
{
    let n = to_chars(name);
    let mut i: usize = 0;
    while i < selection.len()
        invariant
            i <= selection.len(),
            n@ == name@,
            forall|j: int| 0 <= j < i ==> path_views(selection@)[j] != name@,
        decreases selection.len() - i,
    {
        let s = to_chars(selection[i].as_str());
        if chars_eq(s.as_slice(), n.as_slice()) {
            assert(path_views(selection@)[i as int] == name@);
            return true;
        }
        i = i + 1;
    }
    false
}

/// The renames that bring each mod to the state asked for it: `enabled[i]`
/// says whether the mod at `paths[i]` is to be enabled. A mod without a
/// state asked for it is left alone.
pub fn plan_states(paths: &Vec<String>, enabled: &Vec<bool>) -> (ops: Vec<Rename>)
    ensures
        rename_views(ops@) == renames(
            path_views(paths@),
            enabled@,
            if paths@.len() <= enabled@.len() {
                paths@.len()
            } else {
                enabled@.len()
            },
        ),
{
    let count: usize = if paths.len() <= enabled.len() {
        paths.len()
    } else {
        enabled.len()
    };
    let mut ops: Vec<Rename> = Vec::new();
    let mut i: usize = 0;
    proof {
        assert(rename_views(ops@) =~= Seq::<(Seq<char>, Seq<char>)>::empty());
    }
    while i < count
        invariant
            i <= count,
            count <= paths.len(),
            count <= enabled.len(),
            rename_views(ops@) == renames(path_views(paths@), enabled@, i as nat),
        decreases count - i,
    {
        let path = paths[i].as_str();
        let to = if enabled[i] {
            enabled_name(path)
        } else if path_is_disabled(path) {
            String::from_str(path)
        } else {
            disabled_name(path)
        };
        let ghost before = rename_views(ops@);
        assert(path_views(paths@)[i as int] == path@);
        assert(to@ == target(path@, enabled@[i as int]));
        if !crate::text::str_eq(to.as_str(), path) {
            let op = Rename { from: String::from_str(path), to };
            ops.push(op);
            proof {
                assert(rename_views(ops@) =~= before.push(op@));
            }
        }
        i = i + 1;
    }
    ops
}

/// The renames that enable the mods whose file names are in `selection` and
/// disable all the others.
pub fn plan(paths: &Vec<String>, selection: &Vec<String>) -> (ops: Vec<Rename>)
    ensures
        rename_views(ops@) == renames(
            path_views(paths@),
            selected(path_views(paths@), path_views(selection@)),
            paths.len() as nat,
        ),
{
    let mut enabled: Vec<bool> = Vec::new();
    let mut i: usize = 0;
    while i < paths.len()
        invariant
            i <= paths.len(),
            enabled.len() == i,
            forall|j: int|
                0 <= j < i ==> enabled@[j] == path_views(selection@).contains(
                    file_name(path_views(paths@)[j]),
                ),
        decreases paths.len() - i,
    {
        let name = file_name_of(paths[i].as_str());
        assert(path_views(paths@)[i as int] == paths@[i as int]@);
        let chosen = is_selected(selection, name.as_str());
        enabled.push(chosen);
        i = i + 1;
    }
    proof {
        assert(enabled@ =~= selected(path_views(paths@), path_views(selection@)));
    }
    plan_states(paths, &enabled)
}

} // verus!
