//! Conversion between filesystem paths and collection entry names.
//!
//! The same rule on single components applies in both directions: a name
//! component holds no separator (`/` or `\`), and is neither `.` nor `..`.

use vstd::prelude::*;
use vstd::string::*;

verus! {

/// One component of a filesystem path, as the path's parser reports it.
pub enum PathComponent {
    /// A drive or UNC prefix (only on some platforms).
    Prefix,
    /// The root directory.
    RootDir,
    /// A `.` component.
    CurDir,
    /// A `..` component.
    ParentDir,
    /// An ordinary component that is valid Unicode.
    Normal(String),
    /// An ordinary component that is not valid Unicode.
    NonUnicode,
}

/// Why a path or a name was rejected.
#[derive(Clone, Copy, Debug, PartialEq, Eq, Structural)]
pub enum PathError {
    /// A component is not valid Unicode.
    InvalidCharacter,
    /// A component holds a separator, or is a prefix, root, `.` or `..` component.
    InvalidComponent,
}

pub open spec fn is_separator(c: char) -> bool {
    c == '/' || c == '\\'
}

pub open spec fn has_separator(s: Seq<char>) -> bool {
    exists|i: int| 0 <= i < s.len() && is_separator(#[trigger] s[i])
}

/// A component that may stand in a collection name.
pub open spec fn is_normal_name(s: Seq<char>) -> bool {
    &&& !has_separator(s)
    &&& s != seq!['.']
    &&& s != seq!['.', '.']
}

pub open spec fn component_error(c: PathComponent, must_be_relative: bool) -> Option<PathError> {
    match c {
        PathComponent::Normal(s) => if is_normal_name(s@) {
            None
        } else {
            Some(PathError::InvalidComponent)
        },
        PathComponent::NonUnicode => Some(PathError::InvalidCharacter),
        PathComponent::RootDir => if must_be_relative {
            Some(PathError::InvalidComponent)
        } else {
            None
        },
        _ => Some(PathError::InvalidComponent),
    }
}

/// The error of the earliest rejected component, if any.
pub open spec fn first_error(p: Seq<PathComponent>, must_be_relative: bool) -> Option<PathError>
    decreases p.len(),
{
    if p.len() == 0 {
        None
    } else {
        match first_error(p.drop_last(), must_be_relative) {
            Some(e) => Some(e),
            None => component_error(p.last(), must_be_relative),
        }
    }
}

/// The names of the ordinary components, in order.
pub open spec fn normal_names(p: Seq<PathComponent>) -> Seq<Seq<char>>
    decreases p.len(),
{
    if p.len() == 0 {
        Seq::empty()
    } else {
        match p.last() {
            PathComponent::Normal(s) => normal_names(p.drop_last()).push(s@),
            _ => normal_names(p.drop_last()),
        }
    }
}

/// How many root components the path holds.
pub open spec fn root_count(p: Seq<PathComponent>) -> nat
    decreases p.len(),
{
    if p.len() == 0 {
        0
    } else {
        match p.last() {
            PathComponent::RootDir => root_count(p.drop_last()) + 1,
            _ => root_count(p.drop_last()),
        }
    }
}

/// The parts joined with `/` between each two.
pub open spec fn join_slash(parts: Seq<Seq<char>>) -> Seq<char>
    decreases parts.len(),
{
    if parts.len() == 0 {
        Seq::empty()
    } else if parts.len() == 1 {
        parts[0]
    } else {
        join_slash(parts.drop_last()) + seq!['/'] + parts.last()
    }
}

/// The pieces of `s` between its `/` characters (one piece more than slashes).
pub open spec fn split_slash(s: Seq<char>) -> Seq<Seq<char>>
    decreases s.len(),
{
    if s.len() == 0 {
        seq![Seq::empty()]
    } else {
        let r = split_slash(s.drop_last());
        if s.last() == '/' {
            r.push(Seq::empty())
        } else {
            r.update(r.len() - 1, r.last().push(s.last()))
        }
    }
}

/// The name that a path stands for: one `/` per root component, then the
/// ordinary components joined with `/`.
pub open spec fn rendered(p: Seq<PathComponent>) -> Seq<char> {
    Seq::new(root_count(p), |i: int| '/') + join_slash(normal_names(p))
}

pub open spec fn views(v: Seq<String>) -> Seq<Seq<char>> {
    v.map_values(|s: String| s@)
}

pub proof fn lemma_split_slash_nonempty(s: Seq<char>)
    ensures
        split_slash(s).len() >= 1,
    decreases s.len(),
{
    if s.len() > 0 {
        lemma_split_slash_nonempty(s.drop_last());
    }
}

proof fn lemma_first_error_extends(p: Seq<PathComponent>, k: int, must_be_relative: bool)
    requires
        0 <= k <= p.len(),
        first_error(p.take(k), must_be_relative) is Some,
    ensures
        first_error(p, must_be_relative) == first_error(p.take(k), must_be_relative),
    decreases p.len() - k,
{
    if k < p.len() {
        let q = p.take(k + 1);
        assert(q.drop_last() =~= p.take(k));
        lemma_first_error_extends(p, k + 1, must_be_relative);
    } else {
        assert(p.take(k) =~= p);
    }
}

/// Whether `s` holds a separator character.
fn contains_separator(s: &str) -> (r: bool)
    ensures
        r == has_separator(s@),
{
    let n = s.unicode_len();
    let mut i: usize = 0;
    while i < n
        invariant
            n == s@.len(),
            i <= n,
            forall|j: int| 0 <= j < i ==> !is_separator(#[trigger] s@[j]),
        decreases n - i,
    {
        let c = s.get_char(i);
        if c == '/' || c == '\\' {
            assert(is_separator(s@[i as int]));
            return true;
        }
        i = i + 1;
    }
    false
}

/// Checks one component of a collection name.
///
/// Fails when the component holds a separator, or is `.` or `..`.
pub fn validate_path_component(component: &str) -> (r: Result<(), PathError>)
    ensures
        r is Ok <==> is_normal_name(component@),
        r is Err ==> r == Err::<(), PathError>(PathError::InvalidComponent),
{
    if contains_separator(component) {
        return Err(PathError::InvalidComponent);
    }
    let n = component.unicode_len();
    if 1 <= n && n <= 2 && component.get_char(0) == '.' && (n == 1 || component.get_char(1) == '.') {
        assert(component@ =~= seq!['.'] || component@ =~= seq!['.', '.']);
        return Err(PathError::InvalidComponent);
    }
    assert(component@ != seq!['.']) by {
        if component@ == seq!['.'] {
            assert(component@[0] == '.');
        }
    }
    assert(component@ != seq!['.', '.']) by {
        if component@ == seq!['.', '.'] {
            assert(component@[0] == '.' && component@[1] == '.');
        }
    }
    Ok(())
}

/// Converts an already canonicalized path into a collection name.
///
/// Ordinary components are joined with `/`. A root component is rejected
/// when `must_be_relative` holds, and otherwise recorded as a leading `/`.
/// Prefix, `.` and `..` components, ordinary components that break the
/// name rule, and components that are not Unicode are rejected; the earliest
/// rejected component decides the error.
pub fn canonicalized_path_to_string(path: &Vec<PathComponent>, must_be_relative: bool) -> (r:
    Result<String, PathError>)
    ensures
        match first_error(path@, must_be_relative) {
            Some(e) => r == Err::<String, PathError>(e),
            None => r is Ok && r->Ok_0@ == rendered(path@),
        },
{
    let mut prefix = String::new();
    let mut body = String::new();
    let mut count: usize = 0;
    let mut i: usize = 0;
    while i < path.len()
        invariant
            i <= path@.len(),
            first_error(path@.take(i as int), must_be_relative) is None,
            prefix@ == Seq::new(root_count(path@.take(i as int)), |k: int| '/'),
            body@ == join_slash(normal_names(path@.take(i as int))),
            count == normal_names(path@.take(i as int)).len(),
            count <= i,
        decreases path@.len() - i,
    {
        let ghost before = path@.take(i as int);
        let ghost after = path@.take(i as int + 1);
        assert(after.drop_last() =~= before);
        assert(after.last() == path@[i as int]);
        match &path[i] {
            PathComponent::Normal(s) => {
                if validate_path_component(s.as_str()).is_err() {
                    proof {
                        lemma_first_error_extends(path@, i as int + 1, must_be_relative);
                    }
                    return Err(PathError::InvalidComponent);
                }
                if count > 0 {
                    body.append("/");
                }
                body.append(s.as_str());
                proof {
                    reveal_strlit("/");
                    let names = normal_names(after);
                    assert(names == normal_names(before).push(s@));
                    assert(names.drop_last() =~= normal_names(before));
                    assert(body@ =~= join_slash(names));
                }
                count = count + 1;
            },
            PathComponent::RootDir => {
                if must_be_relative {
                    proof {
                        lemma_first_error_extends(path@, i as int + 1, must_be_relative);
                    }
                    return Err(PathError::InvalidComponent);
                }
                prefix.append("/");
                proof {
                    reveal_strlit("/");
                    assert(prefix@ =~= Seq::new(root_count(after), |k: int| '/'));
                }
            },
            PathComponent::NonUnicode => {
                proof {
                    lemma_first_error_extends(path@, i as int + 1, must_be_relative);
                }
                return Err(PathError::InvalidCharacter);
            },
            _ => {
                proof {
                    lemma_first_error_extends(path@, i as int + 1, must_be_relative);
                }
                return Err(PathError::InvalidComponent);
            },
        }
        i = i + 1;
    }
    assert(path@.take(i as int) =~= path@);
    Ok(prefix.concat(body.as_str()))
}

/// Maps a collection name back to the components of its target path,
/// relative to the output directory.
///
/// The name is split at each `/`; every piece must meet the same component
/// rule that the sending side applies, so that a name can never reach
/// outside the output directory.
pub fn get_export_path(name: &str) -> (r: Result<Vec<String>, PathError>)
    ensures
        r is Ok <==> (forall|k: int|
            0 <= k < split_slash(name@).len() ==> is_normal_name(#[trigger] split_slash(name@)[k])),
        r is Ok ==> views(r->Ok_0@) == split_slash(name@),
        r is Err ==> r == Err::<Vec<String>, PathError>(PathError::InvalidComponent),
{
    let n = name.unicode_len();
    let mut parts: Vec<String> = Vec::new();
    let mut start: usize = 0;
    let mut i: usize = 0;
    proof {
        assert(name@.subrange(0, 0) =~= Seq::<char>::empty());
        assert(views(parts@).push(name@.subrange(0, 0)) =~= seq![Seq::<char>::empty()]);
    }
    while i < n
        invariant
            n == name@.len(),
            start <= i <= n,
            views(parts@).push(name@.subrange(start as int, i as int)) == split_slash(
                name@.subrange(0, i as int),
            ),
            forall|k: int| 0 <= k < parts@.len() ==> is_normal_name(#[trigger] views(parts@)[k]),
        decreases n - i,
    {
        let c = name.get_char(i);
        proof {
            let pre = name@.subrange(0, i as int + 1);
            assert(pre.drop_last() =~= name@.subrange(0, i as int));
            assert(pre.last() == c);
        }
        if c == '/' {
            let piece = name.substring_char(start, i);
            if validate_path_component(piece).is_err() {
                proof {
                    let sp = split_slash(name@);
                    lemma_split_prefix_piece(name@, i as int, views(parts@), name@.subrange(start as int, i as int));
                    assert(sp[parts@.len() as int] == piece@);
                }
                return Err(PathError::InvalidComponent);
            }
            let ghost old_parts = parts@;
            parts.push(String::from_str(piece));
            proof {
                assert(views(parts@) =~= views(old_parts).push(piece@));
                assert(name@.subrange(i as int + 1, i as int + 1) =~= Seq::<char>::empty());
            }
            start = i + 1;
        } else {
            proof {
                assert(name@.subrange(start as int, i as int + 1) =~= name@.subrange(
                    start as int,
                    i as int,
                ).push(c));
            }
        }
        i = i + 1;
    }
    let last = name.substring_char(start, n);
    assert(name@.subrange(0, n as int) =~= name@);
    if validate_path_component(last).is_err() {
        assert(split_slash(name@)[parts@.len() as int] == last@);
        return Err(PathError::InvalidComponent);
    }
    let ghost old_parts = parts@;
    parts.push(String::from_str(last));
    assert(views(parts@) =~= views(old_parts).push(last@));
    assert forall|k: int| 0 <= k < split_slash(name@).len() implies is_normal_name(
        #[trigger] split_slash(name@)[k],
    ) by {
        if k < old_parts.len() {
            assert(views(parts@)[k] == views(old_parts)[k]);
        }
    }
    Ok(parts)
}

/// Once a `/` is reached, the pieces before it stay pieces of the whole
/// string: each of them and the piece it closes appear in the full split.
proof fn lemma_split_prefix_piece(s: Seq<char>, i: int, done: Seq<Seq<char>>, cur: Seq<char>)
    requires
        0 <= i < s.len(),
        s[i] == '/',
        done.push(cur) == split_slash(s.subrange(0, i)),
    ensures
        split_slash(s).len() > done.len(),
        split_slash(s)[done.len() as int] == cur,
        forall|k: int| 0 <= k < done.len() ==> split_slash(s)[k] == done[k],
    decreases s.len() - i,
{
    lemma_split_stable(s, i + 1, s.len() as int);
    let p = s.subrange(0, i + 1);
    assert(p.drop_last() =~= s.subrange(0, i));
    assert(s.subrange(0, s.len() as int) =~= s);
}

/// Pieces that a `/` closed are kept by every longer prefix.
proof fn lemma_split_stable(s: Seq<char>, a: int, b: int)
    requires
        0 <= a <= b <= s.len(),
    ensures
        split_slash(s.subrange(0, b)).len() >= split_slash(s.subrange(0, a)).len(),
        forall|k: int|
            0 <= k < split_slash(s.subrange(0, a)).len() - 1 ==> split_slash(s.subrange(0, b))[k]
                == split_slash(s.subrange(0, a))[k],
    decreases b - a,
{
    lemma_split_slash_nonempty(s.subrange(0, a));
    if a < b {
        lemma_split_stable(s, a, b - 1);
        let q = s.subrange(0, b);
        assert(q.drop_last() =~= s.subrange(0, b - 1));
        lemma_split_slash_nonempty(s.subrange(0, b - 1));
    }
}

proof fn lemma_split_no_slash(s: Seq<char>)
    requires
        forall|i: int| 0 <= i < s.len() ==> s[i] != '/',
    ensures
        split_slash(s) == seq![s],
    decreases s.len(),
{
    if s.len() > 0 {
        lemma_split_no_slash(s.drop_last());
        assert(s.drop_last().push(s.last()) =~= s);
        assert(seq![s.drop_last()].update(0, s.drop_last().push(s.last())) =~= seq![s]);
    } else {
        assert(s =~= Seq::<char>::empty());
    }
}

proof fn lemma_split_after_slash(a: Seq<char>, b: Seq<char>)
    requires
        forall|i: int| 0 <= i < b.len() ==> b[i] != '/',
    ensures
        split_slash(a + seq!['/'] + b) == split_slash(a).push(b),
    decreases b.len(),
{
    let s = a + seq!['/'] + b;
    if b.len() == 0 {
        assert(s.drop_last() =~= a);
        assert(b =~= Seq::<char>::empty());
    } else {
        lemma_split_after_slash(a, b.drop_last());
        assert(s.drop_last() =~= a + seq!['/'] + b.drop_last());
        assert(b.drop_last().push(b.last()) =~= b);
        assert(split_slash(a).push(b.drop_last()).update(
            split_slash(a).len() as int,
            b.drop_last().push(b.last()),
        ) =~= split_slash(a).push(b));
    }
}

proof fn lemma_split_join(parts: Seq<Seq<char>>)
    requires
        parts.len() >= 1,
        forall|k: int| 0 <= k < parts.len() ==> !has_separator(#[trigger] parts[k]),
    ensures
        split_slash(join_slash(parts)) == parts,
    decreases parts.len(),
{
    assert forall|k: int, i: int| 0 <= k < parts.len() && 0 <= i < parts[k].len() implies #[trigger] parts[k][i]
        != '/' by {
        if parts[k][i] == '/' {
            assert(is_separator(parts[k][i]));
        }
    }
    if parts.len() == 1 {
        lemma_split_no_slash(parts[0]);
        assert(seq![parts[0]] =~= parts);
    } else {
        let init = parts.drop_last();
        assert forall|k: int| 0 <= k < init.len() implies !has_separator(#[trigger] init[k]) by {
            assert(init[k] == parts[k]);
        }
        lemma_split_join(init);
        lemma_split_after_slash(join_slash(init), parts.last());
        assert(init.push(parts.last()) =~= parts);
    }
}

proof fn lemma_normal_path_facts(comps: Seq<PathComponent>)
    requires
        forall|k: int|
            0 <= k < comps.len() ==> (#[trigger] comps[k] is Normal) && is_normal_name(
                comps[k]->Normal_0@,
            ),
    ensures
        first_error(comps, true) is None,
        root_count(comps) == 0,
        normal_names(comps).len() == comps.len(),
        forall|k: int| 0 <= k < comps.len() ==> #[trigger] normal_names(comps)[k] == comps[k]->Normal_0@,
    decreases comps.len(),
{
    if comps.len() > 0 {
        let init = comps.drop_last();
        assert forall|k: int| 0 <= k < init.len() implies (#[trigger] init[k] is Normal)
            && is_normal_name(init[k]->Normal_0@) by {
            assert(init[k] == comps[k]);
        }
        lemma_normal_path_facts(init);
        assert(comps.last() == comps[comps.len() - 1]);
        assert forall|k: int| 0 <= k < comps.len() implies #[trigger] normal_names(comps)[k]
            == comps[k]->Normal_0@ by {
            if k < init.len() {
                assert(init[k] == comps[k]);
            }
        }
    }
}

/// Names survive the trip from sender to receiver: a relative path of
/// ordinary components is accepted by `canonicalized_path_to_string`, and
/// the name it gives is split by `get_export_path` into exactly the same
/// components, each of which passes the component rule again.
pub proof fn lemma_name_round_trip(comps: Seq<PathComponent>)
    requires
        comps.len() >= 1,
        forall|k: int|
            0 <= k < comps.len() ==> (#[trigger] comps[k] is Normal) && is_normal_name(
                comps[k]->Normal_0@,
            ),
    ensures
        first_error(comps, true) is None,
        split_slash(rendered(comps)).len() == comps.len(),
        forall|k: int|
            0 <= k < comps.len() ==> #[trigger] split_slash(rendered(comps))[k]
                == comps[k]->Normal_0@ && is_normal_name(split_slash(rendered(comps))[k]),
{
    lemma_normal_path_facts(comps);
    let names = normal_names(comps);
    assert forall|k: int| 0 <= k < names.len() implies !has_separator(#[trigger] names[k]) by {
        assert(names[k] == comps[k]->Normal_0@);
    }
    lemma_split_join(names);
    assert(rendered(comps) =~= join_slash(names));
}

} // verus!
