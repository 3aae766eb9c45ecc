//! Paths as text, with the slash as separator.

use crate::text;
use vstd::prelude::*;
use vstd::string::*;

verus! {

/// Whether a path starts at the root.
pub open spec fn absolute(path: Seq<char>) -> bool {
    path.len() > 0 && path[0] == '/'
}

/// `path` as seen from `base`.
pub open spec fn joined(base: Seq<char>, path: Seq<char>) -> Seq<char> {
    if absolute(path) || base.len() == 0 {
        path
    } else if base.last() == '/' {
        base + path
    } else {
        base + "/"@ + path
    }
}

/// The names among some parts of a path: empty parts and dots name nothing.
pub open spec fn names(parts: Seq<Seq<char>>) -> Seq<Seq<char>>
    decreases parts.len(),
{
    if parts.len() == 0 {
        Seq::empty()
    } else {
        let before = names(parts.drop_last());
        if parts.last().len() == 0 || parts.last() == "."@ {
            before
        } else {
            before.push(parts.last())
        }
    }
}

/// What a path is made of: the root, where it starts there, or a leading dot,
/// and the names.
pub open spec fn components(path: Seq<char>) -> Seq<Seq<char>> {
    let parts = text::split(path, '/');
    if absolute(path) {
        seq!["/"@] + names(parts)
    } else if parts.len() > 0 && parts[0] == "."@ {
        seq!["."@] + names(parts)
    } else {
        names(parts)
    }
}

/// Whether `path` lies at or below `base`.
pub open spec fn within(path: Seq<char>, base: Seq<char>) -> bool {
    text::starts_with(components(path), components(base))
}

/// The components of `path` behind those of `ancestor`, where it lies at or
/// below it.
pub open spec fn components_behind(path: Seq<char>, ancestor: Seq<char>) -> Seq<Seq<char>> {
    if within(path, ancestor) {
        components(path).skip(components(ancestor).len() as int)
    } else {
        Seq::empty()
    }
}

/// `path` with its part `ancestor` put in the form `canonical`.
pub open spec fn moved(path: Seq<char>, ancestor: Seq<char>, canonical: Seq<char>) -> Seq<char> {
    let rest = components_behind(path, ancestor);
    if rest.len() == 0 {
        canonical
    } else {
        joined(canonical, text::join(rest, "/"@))
    }
}

/// Whether a path leads to the parent of something on its way.
pub open spec fn climbs(path: Seq<char>) -> bool {
    components(path).contains(".."@)
}

/// Where components lead, one after the other: `..` leads back by one.
pub open spec fn followed(parts: Seq<Seq<char>>) -> Seq<Seq<char>>
    decreases parts.len(),
{
    if parts.len() == 0 {
        Seq::empty()
    } else {
        let before = followed(parts.drop_last());
        if parts.last() != ".."@ {
            before.push(parts.last())
        } else if before.len() == 0 {
            before
        } else {
            before.drop_last()
        }
    }
}

/// Whether a name holds a wildcard.
pub open spec fn has_wildcard(name: Seq<char>) -> bool {
    name.contains('*') || name.contains('?') || name.contains('[')
}

/// The components before the first one with a wildcard.
pub open spec fn before_wildcard(parts: Seq<Seq<char>>) -> Seq<Seq<char>>
    decreases parts.len(),
{
    if parts.len() == 0 || has_wildcard(parts[0]) {
        Seq::empty()
    } else {
        seq![parts[0]] + before_wildcard(parts.skip(1))
    }
}

/// The path that is made of these components.
pub open spec fn path_of(parts: Seq<Seq<char>>) -> Seq<char> {
    if parts.len() == 0 {
        "."@
    } else if parts[0] == "/"@ {
        "/"@ + text::join(parts.skip(1), "/"@)
    } else {
        text::join(parts, "/"@)
    }
}

/// Whether a path starts at the root.
pub fn is_absolute(path: &str) -> (b: bool)
    ensures
        b == absolute(path@),
{
    let v = text::chars_of(path);
    v.len() > 0 && v[0] == '/'
}

/// `path` as seen from `base`.
pub fn join_path(base: &str, path: &str) -> (s: String)
    ensures
        s@ == joined(base@, path@),
{
    let v = text::chars_of(base);
    if is_absolute(path) || v.len() == 0 {
        path.to_owned()
    } else if v[v.len() - 1] == '/' {
        text::cat2(base, path)
    } else {
        text::cat3(base, "/", path)
    }
}

/// What a path is made of.
pub fn components_of(path: &str) -> (out: Vec<String>)
    ensures
        text::views(out@) == components(path@),
{
    let parts = text::split_char(path, '/');
    let ghost all = text::split(path@, '/');
    let mut out: Vec<String> = Vec::new();
    if is_absolute(path) {
        out.push("/".to_owned());
        assert(text::views(out@) =~= seq!["/"@]);
    } else if parts.len() > 0 && text::same(parts[0].as_str(), ".") {
        assert(all[0] == parts@[0]@);
        out.push(".".to_owned());
        assert(text::views(out@) =~= seq!["."@]);
    } else {
        assert(parts.len() > 0 ==> all[0] == parts@[0]@);
        assert(text::views(out@) =~= Seq::empty());
    }
    let ghost head = text::views(out@);
    let mut i: usize = 0;
    assert(head + names(all.take(0)) =~= head);
    while i < parts.len()
        invariant
            i <= parts.len(),
            text::views(parts@) == all,
            text::views(out@) == head + names(all.take(i as int)),
        decreases parts.len() - i,
    {
        let part = &parts[i];
        assert(all.take(i + 1).drop_last() =~= all.take(i as int));
        assert(all.take(i + 1).last() == part@) by {
            assert(all[i as int] == text::views(parts@)[i as int]);
        }
        let ghost prior = text::views(out@);
        if !part.as_str().is_empty() && !text::same(part.as_str(), ".") {
            out.push(part.clone());
            assert(text::views(out@) =~= prior.push(part@));
            assert(text::views(out@) =~= head + names(all.take(i + 1)));
        }
        i += 1;
    }
    assert(all.take(all.len() as int) =~= all);
    assert(text::views(out@) =~= components(path@));
    out
}

/// Whether `path` lies at or below `base`.
pub fn is_within(path: &str, base: &str) -> (b: bool)
    ensures
        b == within(path@, base@),
{
    let p = components_of(path);
    let q = components_of(base);
    let ghost ps = text::views(p@);
    let ghost qs = text::views(q@);
    if q.len() > p.len() {
        return false;
    }
    let mut i: usize = 0;
    while i < q.len()
        invariant
            i <= q.len() <= p.len(),
            ps == text::views(p@),
            qs == text::views(q@),
            ps == components(path@),
            qs == components(base@),
            forall|k: int| 0 <= k < i ==> #[trigger] ps[k] == qs[k],
        decreases q.len() - i,
    {
        assert(ps[i as int] == p@[i as int]@);
        assert(qs[i as int] == q@[i as int]@);
        if !text::same(p[i].as_str(), q[i].as_str()) {
            assert(ps.take(qs.len() as int)[i as int] == ps[i as int]);
            return false;
        }
        i += 1;
    }
    assert(ps.take(qs.len() as int) =~= qs);
    true
}

/// Whether a path leads to the parent of something on its way.
pub fn is_climbing(path: &str) -> (b: bool)
    ensures
        b == climbs(path@),
{
    text::lists(&components_of(path), "..")
}

/// `path` with its part `ancestor` put in the form `canonical`.
pub fn move_path(path: &str, ancestor: &str, canonical: &str) -> (s: String)
    ensures
        s@ == moved(path@, ancestor@, canonical@),
{
    if !is_within(path, ancestor) {
        return canonical.to_owned();
    }
    let mut parts = components_of(path);
    let n: usize = components_of(ancestor).len();
    let rest = parts.split_off(n);
    assert(text::views(rest@) =~= components_behind(path@, ancestor@));
    if rest.len() == 0 {
        canonical.to_owned()
    } else {
        join_path(canonical, text::join_strs(&rest, "/").as_str())
    }
}

/// Whether a name holds a wildcard.
fn holds_wildcard(name: &str) -> (b: bool)
    ensures
        b == has_wildcard(name@),
{
    let v = text::chars_of(name);
    let mut i: usize = 0;
    while i < v.len()
        invariant
            i <= v.len(),
            v@ == name@,
            forall|k: int|
                0 <= k < i ==> #[trigger] v@[k] != '*' && v@[k] != '?' && v@[k] != '[',
        decreases v.len() - i,
    {
        if v[i] == '*' || v[i] == '?' || v[i] == '[' {
            assert(name@.contains(v@[i as int]));
            return true;
        }
        i += 1;
    }
    false
}

/// The part of a pattern that holds no wildcard.
pub fn static_glob_prefix(path: &str) -> (s: String)
    ensures
        s@ == path_of(before_wildcard(components(path@))),
{
    let parts = components_of(path);
    let ghost all = components(path@);
    let mut kept: Vec<String> = Vec::new();
    let mut i: usize = 0;
    assert(all.skip(0) =~= all);
    assert(text::views(kept@) + before_wildcard(all) =~= before_wildcard(all));
    while i < parts.len() && !holds_wildcard(parts[i].as_str())
        invariant
            i <= parts.len(),
            text::views(parts@) == all,
            before_wildcard(all) == text::views(kept@) + before_wildcard(all.skip(i as int)),
        decreases parts.len() - i,
    {
        let ghost rest = all.skip(i as int);
        let ghost prior = text::views(kept@);
        assert(rest[0] == parts@[i as int]@) by {
            assert(all[i as int] == text::views(parts@)[i as int]);
        }
        kept.push(parts[i].clone());
        assert(text::views(kept@) =~= prior.push(rest[0]));
        assert(rest.skip(1) =~= all.skip(i + 1));
        assert(prior + (seq![rest[0]] + before_wildcard(rest.skip(1))) =~= text::views(kept@)
            + before_wildcard(all.skip(i + 1)));
        i += 1;
    }
    assert(before_wildcard(all.skip(i as int)) =~= Seq::empty()) by {
        if i < parts.len() {
            assert(all.skip(i as int)[0] == text::views(parts@)[i as int]);
        }
    }
    assert(text::views(kept@) =~= before_wildcard(all));
    let ghost want = text::views(kept@);
    if kept.len() == 0 {
        return ".".to_owned();
    }
    assert(want[0] == kept@[0]@);
    if text::same(kept[0].as_str(), "/") {
        let ghost whole = kept@;
        let _ = kept.remove(0);
        assert(text::views(kept@) =~= want.skip(1));
        text::cat2("/", text::join_strs(&kept, "/").as_str())
    } else {
        text::join_strs(&kept, "/")
    }
}

/// The name of a file without its extension, where it has the extension `ext`.
pub open spec fn stem(name: Seq<char>, ext: Seq<char>) -> Option<Seq<char>> {
    let n = name.len() - ext.len() - 1;
    if n > 0 && name.skip(n) == seq!['.'] + ext {
        Some(name.take(n))
    } else {
        None
    }
}

/// The name of a file without its extension, where it has the extension `ext`.
pub fn stem_of(name: &str, ext: &str) -> (r: Option<String>)
    ensures
        text::opt_view(r) == stem(name@, ext@),
{
    let v = text::chars_of(name);
    let e = text::chars_of(ext);
    if v.len() <= e.len() || v.len() - e.len() <= 1 {
        return None;
    }
    let n: usize = v.len() - e.len() - 1;
    if v[n] != '.' {
        assert(v@.skip(n as int)[0] == v@[n as int]);
        return None;
    }
    let mut i: usize = 0;
    while i < e.len()
        invariant
            i <= e.len(),
            n + 1 + e.len() == v.len(),
            n > 0,
            v@ == name@,
            e@ == ext@,
            v@[n as int] == '.',
            forall|k: int| 0 <= k < i ==> v@[n + 1 + k] == #[trigger] e@[k],
        decreases e.len() - i,
    {
        if v[n + 1 + i] != e[i] {
            assert(v@.skip(n as int)[1 + i] == v@[n + 1 + i]);
            assert((seq!['.'] + ext@)[1 + i] == e@[i as int]);
            return None;
        }
        i += 1;
    }
    assert(name@.skip(n as int) =~= seq!['.'] + ext@);
    assert(v@.subrange(0, n as int) =~= name@.take(n as int));
    Some(text::string_range(&v, 0, n))
}

proof fn lemma_split_behind(base: Seq<char>, name: Seq<char>)
    requires
        !name.contains('/'),
    ensures
        text::split(base + seq!['/'] + name, '/') == text::split(base, '/').push(name),
    decreases base.len(),
{
    let whole = base + seq!['/'] + name;
    text::lemma_found_char(base, '/');
    text::lemma_found_char(name, '/');
    match text::find(base, seq!['/']) {
        Some(k) => {
            let rest = base.skip((k + 1) as int);
            text::lemma_find_char(whole, '/', k as int);
            assert(whole.take(k as int) =~= base.take(k as int));
            assert(whole.skip((k + 1) as int) =~= rest + seq!['/'] + name);
            lemma_split_behind(rest, name);
            assert(text::split(whole, '/') =~= text::split(base, '/').push(name));
        },
        None => {
            let n = base.len() as int;
            assert forall|i: int| 0 <= i < n implies whole[i] != '/' by {
                assert(base.contains(base[i]));
            }
            text::lemma_find_char(whole, '/', n);
            assert(whole.take(n) =~= base);
            assert(whole.skip(n + 1) =~= name);
            assert(text::find(name, seq!['/']) is None);
            assert(text::split(name, '/') =~= seq![name]);
            assert(text::split(whole, '/') =~= text::split(base, '/').push(name));
        },
    }
}

proof fn lemma_split_starts(s: Seq<char>)
    ensures
        text::split(s, '/').len() > 0,
{
    text::lemma_found_char(s, '/');
}

/// Components that climb nowhere lead where they say.
pub proof fn lemma_followed(parts: Seq<Seq<char>>)
    requires
        !parts.contains(".."@),
    ensures
        followed(parts) == parts,
    decreases parts.len(),
{
    if parts.len() > 0 {
        let before = parts.drop_last();
        assert(!before.contains(".."@)) by {
            if before.contains(".."@) {
                let i = choose|i: int| 0 <= i < before.len() && before[i] == ".."@;
                assert(parts[i] == ".."@);
            }
        }
        lemma_followed(before);
        assert(parts[parts.len() - 1] == parts.last());
        assert(before.push(parts.last()) =~= parts);
    } else {
        assert(followed(parts) =~= parts);
    }
}

/// What is joined to a directory by one name stands directly in it.
pub proof fn law_names_stay_below(base: Seq<char>, name: Seq<char>)
    requires
        base.len() > 0,
        name.len() > 0,
        !name.contains('/'),
        name != "."@,
    ensures
        components(joined(base, name)) == components(base).push(name),
        within(joined(base, name), base),
{
    reveal_strlit("/");
    assert("/"@ =~= seq!['/']);
    assert(!absolute(name)) by {
        if absolute(name) {
            assert(name.contains(name[0]));
        }
    }
    let path = joined(base, name);
    assert(path[0] == base[0]);
    if base.last() == '/' {
        let bare = base.drop_last();
        let empty = Seq::<char>::empty();
        assert(base =~= bare + seq!['/'] + empty);
        assert(path =~= bare + seq!['/'] + name);
        lemma_split_behind(bare, empty);
        lemma_split_behind(bare, name);
        lemma_split_starts(bare);
        let parts = text::split(bare, '/');
        assert(parts.push(empty).drop_last() =~= parts);
        assert(parts.push(name).drop_last() =~= parts);
        assert(parts.push(empty)[0] == parts[0]);
        assert(parts.push(name)[0] == parts[0]);
        assert(components(path) =~= components(base).push(name));
    } else {
        lemma_split_behind(base, name);
        lemma_split_starts(base);
        let parts = text::split(base, '/');
        assert(parts.push(name).drop_last() =~= parts);
        assert(parts.push(name)[0] == parts[0]);
        assert(components(path) =~= components(base).push(name));
    }
    assert(components(path).take(components(base).len() as int) =~= components(base));
}

} // verus!
