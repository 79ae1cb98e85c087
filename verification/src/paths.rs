//! Path derivations of the process: the byte-level path normalizer, the
//! traversal guard for files read beside the executable, the engine
//! directory, backup naming, and the client identification string.
//!
//! Paths are modelled as byte strings with '/' and '\\' as separators; the
//! normalizer renders with '/'.

use vstd::prelude::*;

use crate::bytes::{ascii_lower, bytes_eq, contains_sub, copy_bytes, dec_digits, push_all, starts_with, to_ascii_lower, u64_to_dec};
use crate::errors::MaaError;
use crate::filename::{is_sep, last_component, subrange_vec};

verus! {

pub open spec fn temp_indicators() -> Seq<Seq<u8>> {
    seq![seq![0x5Cu8, 0x74, 0x65, 0x6D, 0x70, 0x5C]] + seq![seq![0x2Fu8, 0x74, 0x65, 0x6D, 0x70, 0x2F]] + seq![seq![0x5Cu8, 0x74, 0x6D, 0x70, 0x5C]] + seq![seq![0x2Fu8, 0x74, 0x6D, 0x70, 0x2F]] + seq![seq![0x5Cu8, 0x61, 0x70, 0x70, 0x64, 0x61, 0x74, 0x61, 0x5C, 0x6C, 0x6F, 0x63, 0x61, 0x6C, 0x5C, 0x74, 0x65, 0x6D, 0x70]] + seq![seq![0x2Fu8, 0x61, 0x70, 0x70, 0x64, 0x61, 0x74, 0x61, 0x2F, 0x6C, 0x6F, 0x63, 0x61, 0x6C, 0x2F, 0x74, 0x65, 0x6D, 0x70]] + seq![seq![0x5Cu8, 0x74, 0x65, 0x6D, 0x70, 0x6F, 0x72, 0x61, 0x72, 0x79, 0x20, 0x69, 0x6E, 0x74, 0x65, 0x72, 0x6E, 0x65, 0x74, 0x20, 0x66, 0x69, 0x6C, 0x65, 0x73, 0x5C]] + seq![seq![0x5Cu8, 0x37, 0x7A, 0x6F, 0x63, 0x61, 0x62]] + seq![seq![0x5Cu8, 0x37, 0x7A, 0x6F]] + seq![seq![0x5Cu8, 0x77, 0x7A]] + seq![seq![0x5Cu8, 0x72, 0x61, 0x72, 0x24]] + seq![seq![0x5Cu8, 0x74, 0x65, 0x6D, 0x70, 0x5F]]
}

/// The lowered substrings that mark a temporary directory.
fn temp_indicator_list() -> (r: Vec<Vec<u8>>)
    ensures
        r.deep_view() == temp_indicators(),
{
    let mut inds: Vec<Vec<u8>> = Vec::new();
    let mut c0: Vec<u8> = Vec::new();
    c0.push(0x5C);
    c0.push(0x74);
    c0.push(0x65);
    c0.push(0x6D);
    c0.push(0x70);
    c0.push(0x5C);
    assert(c0@ =~= temp_indicators()[0]);
    inds.push(c0);
    let mut c1: Vec<u8> = Vec::new();
    c1.push(0x2F);
    c1.push(0x74);
    c1.push(0x65);
    c1.push(0x6D);
    c1.push(0x70);
    c1.push(0x2F);
    assert(c1@ =~= temp_indicators()[1]);
    inds.push(c1);
    let mut c2: Vec<u8> = Vec::new();
    c2.push(0x5C);
    c2.push(0x74);
    c2.push(0x6D);
    c2.push(0x70);
    c2.push(0x5C);
    assert(c2@ =~= temp_indicators()[2]);
    inds.push(c2);
    let mut c3: Vec<u8> = Vec::new();
    c3.push(0x2F);
    c3.push(0x74);
    c3.push(0x6D);
    c3.push(0x70);
    c3.push(0x2F);
    assert(c3@ =~= temp_indicators()[3]);
    inds.push(c3);
    let mut c4: Vec<u8> = Vec::new();
    c4.push(0x5C);
    c4.push(0x61);
    c4.push(0x70);
    c4.push(0x70);
    c4.push(0x64);
    c4.push(0x61);
    c4.push(0x74);
    c4.push(0x61);
    c4.push(0x5C);
    c4.push(0x6C);
    c4.push(0x6F);
    c4.push(0x63);
    c4.push(0x61);
    c4.push(0x6C);
    c4.push(0x5C);
    c4.push(0x74);
    c4.push(0x65);
    c4.push(0x6D);
    c4.push(0x70);
    assert(c4@ =~= temp_indicators()[4]);
    inds.push(c4);
    let mut c5: Vec<u8> = Vec::new();
    c5.push(0x2F);
    c5.push(0x61);
    c5.push(0x70);
    c5.push(0x70);
    c5.push(0x64);
    c5.push(0x61);
    c5.push(0x74);
    c5.push(0x61);
    c5.push(0x2F);
    c5.push(0x6C);
    c5.push(0x6F);
    c5.push(0x63);
    c5.push(0x61);
    c5.push(0x6C);
    c5.push(0x2F);
    c5.push(0x74);
    c5.push(0x65);
    c5.push(0x6D);
    c5.push(0x70);
    assert(c5@ =~= temp_indicators()[5]);
    inds.push(c5);
    let mut c6: Vec<u8> = Vec::new();
    c6.push(0x5C);
    c6.push(0x74);
    c6.push(0x65);
    c6.push(0x6D);
    c6.push(0x70);
    c6.push(0x6F);
    c6.push(0x72);
    c6.push(0x61);
    c6.push(0x72);
    c6.push(0x79);
    c6.push(0x20);
    c6.push(0x69);
    c6.push(0x6E);
    c6.push(0x74);
    c6.push(0x65);
    c6.push(0x72);
    c6.push(0x6E);
    c6.push(0x65);
    c6.push(0x74);
    c6.push(0x20);
    c6.push(0x66);
    c6.push(0x69);
    c6.push(0x6C);
    c6.push(0x65);
    c6.push(0x73);
    c6.push(0x5C);
    assert(c6@ =~= temp_indicators()[6]);
    inds.push(c6);
    let mut c7: Vec<u8> = Vec::new();
    c7.push(0x5C);
    c7.push(0x37);
    c7.push(0x7A);
    c7.push(0x6F);
    c7.push(0x63);
    c7.push(0x61);
    c7.push(0x62);
    assert(c7@ =~= temp_indicators()[7]);
    inds.push(c7);
    let mut c8: Vec<u8> = Vec::new();
    c8.push(0x5C);
    c8.push(0x37);
    c8.push(0x7A);
    c8.push(0x6F);
    assert(c8@ =~= temp_indicators()[8]);
    inds.push(c8);
    let mut c9: Vec<u8> = Vec::new();
    c9.push(0x5C);
    c9.push(0x77);
    c9.push(0x7A);
    assert(c9@ =~= temp_indicators()[9]);
    inds.push(c9);
    let mut c10: Vec<u8> = Vec::new();
    c10.push(0x5C);
    c10.push(0x72);
    c10.push(0x61);
    c10.push(0x72);
    c10.push(0x24);
    assert(c10@ =~= temp_indicators()[10]);
    inds.push(c10);
    let mut c11: Vec<u8> = Vec::new();
    c11.push(0x5C);
    c11.push(0x74);
    c11.push(0x65);
    c11.push(0x6D);
    c11.push(0x70);
    c11.push(0x5F);
    assert(c11@ =~= temp_indicators()[11]);
    inds.push(c11);
    assert(inds.deep_view() =~~= temp_indicators());
    inds
}

/// One dot: the current-directory component.
pub open spec fn dot() -> Seq<u8> {
    seq![0x2Eu8]
}

/// Two dots: the parent-directory component.
pub open spec fn dotdot() -> Seq<u8> {
    seq![0x2Eu8, 0x2E]
}

/// The last component never outgrows the path.
pub proof fn lemma_last_component_len(s: Seq<u8>)
    ensures
        last_component(s).len() <= s.len(),
    decreases s.len(),
{
    if s.len() > 0 && !is_sep(s.last()) {
        lemma_last_component_len(s.drop_last());
    }
}

/// The separator-free components of a path, in order; runs of separators
/// contribute nothing.
pub open spec fn split_comps(s: Seq<u8>) -> Seq<Seq<u8>>
    decreases s.len(),
    via split_comps_decreases
{
    if s.len() == 0 {
        Seq::empty()
    } else if is_sep(s.last()) {
        split_comps(s.drop_last())
    } else {
        split_comps(s.take(s.len() - last_component(s).len())) + seq![last_component(s)]
    }
}

#[via_fn]
proof fn split_comps_decreases(s: Seq<u8>) {
    if s.len() > 0 && !is_sep(s.last()) {
        lemma_last_component_len(s);
        assert(last_component(s).len() >= 1);
    }
}

/// True of a drive-prefix component such as "C:": one ASCII letter and a
/// colon. A parent component cannot pop it.
pub open spec fn is_drive_comp(c: Seq<u8>) -> bool {
    c.len() == 2 && c[1] == 0x3A && ((0x41 <= c[0] <= 0x5A) || (0x61 <= c[0] <= 0x7A))
}

/// One step of normalization: a dot component vanishes; a parent component
/// pops the preceding plain component if one is there, and is kept when the
/// stack is empty or ends in another parent component or a drive prefix; a
/// plain component is kept.
pub open spec fn norm_step(stack: Seq<Seq<u8>>, comp: Seq<u8>) -> Seq<Seq<u8>> {
    if comp == dot() {
        stack
    } else if comp == dotdot() {
        if stack.len() > 0 && stack.last() != dotdot() && !is_drive_comp(stack.last()) {
            stack.drop_last()
        } else {
            stack + seq![comp]
        }
    } else {
        stack + seq![comp]
    }
}

/// Normalized component stack of a component list.
pub open spec fn norm_comps(cs: Seq<Seq<u8>>) -> Seq<Seq<u8>>
    decreases cs.len(),
{
    if cs.len() == 0 {
        Seq::empty()
    } else {
        norm_step(norm_comps(cs.drop_last()), cs.last())
    }
}

/// Components joined with '/'.
pub open spec fn join_comps(cs: Seq<Seq<u8>>) -> Seq<u8>
    decreases cs.len(),
{
    if cs.len() == 0 {
        Seq::empty()
    } else if cs.len() == 1 {
        cs[0]
    } else {
        join_comps(cs.drop_last()) + seq![0x2Fu8] + cs.last()
    }
}

/// True when the path begins with a separator.
pub open spec fn is_absolute(s: Seq<u8>) -> bool {
    s.len() > 0 && is_sep(s[0])
}

/// The normalized form of a path: redundant dots removed, parent components
/// resolved against plain ones, components joined with '/', a leading '/'
/// kept for absolute paths. The path need not exist.
pub open spec fn normalize_spec(s: Seq<u8>) -> Seq<u8> {
    if is_absolute(s) {
        seq![0x2Fu8] + join_comps(norm_comps(split_comps(s)))
    } else {
        join_comps(norm_comps(split_comps(s)))
    }
}

/// Splits a path into its separator-free components.
fn split_components(s: &Vec<u8>) -> (r: Vec<Vec<u8>>)
    ensures
        r.deep_view() == split_comps(s@),
    decreases s@.len(),
{
    let len = s.len();
    if len == 0 {
        let r: Vec<Vec<u8>> = Vec::new();
        assert(r.deep_view() =~~= split_comps(s@));
        return r;
    }
    if s[len - 1] == 0x2F || s[len - 1] == 0x5C {
        let prefix = subrange_vec(s, 0, len - 1);
        assert(prefix@ =~= s@.drop_last());
        let r = split_components(&prefix);
        return r;
    }
    let mut cut: usize = len - 1;
    while cut > 0 && s[cut - 1] != 0x2F && s[cut - 1] != 0x5C
        invariant
            0 <= cut < s@.len(),
            forall|j: int| cut <= j < s@.len() ==> !is_sep(#[trigger] s@[j]),
        decreases cut,
    {
        cut = cut - 1;
    }
    proof {
        crate::filename::lemma_last_component_range(s@, cut as int);
    }
    let comp = subrange_vec(s, cut, len);
    let prefix = subrange_vec(s, 0, cut);
    assert(prefix@ =~= s@.take(s@.len() - last_component(s@).len()));
    let mut r = split_components(&prefix);
    r.push(comp);
    assert(r.deep_view() =~~= split_comps(s@));
    r
}

/// Normalizes a path: resolves '.' and '..' against the components seen so
/// far, joins with '/', and keeps a leading '/' of an absolute path. Works
/// on the text alone; the path need not exist.
pub fn normalize_path(path: &Vec<u8>) -> (r: Vec<u8>)
    ensures
        r@ == normalize_spec(path@),
{
    let comps = split_components(path);
    let mut dotv: Vec<u8> = Vec::new();
    dotv.push(0x2E);
    assert(dotv@ =~= dot());
    let mut dotdotv: Vec<u8> = Vec::new();
    dotdotv.push(0x2E);
    dotdotv.push(0x2E);
    assert(dotdotv@ =~= dotdot());
    let mut stack: Vec<Vec<u8>> = Vec::new();
    let mut i: usize = 0;
    assert(comps.deep_view().take(0) =~~= Seq::<Seq<u8>>::empty());
    while i < comps.len()
        invariant
            0 <= i <= comps@.len(),
            dotv@ == dot(),
            dotdotv@ == dotdot(),
            comps.deep_view() == split_comps(path@),
            stack.deep_view() == norm_comps(comps.deep_view().take(i as int)),
        decreases comps@.len() - i,
    {
        proof {
            assert(comps.deep_view().take(i + 1).drop_last() =~~= comps.deep_view().take(i as int));
            assert(comps.deep_view().take(i + 1).last() == comps.deep_view()[i as int]);
            assert(comps.deep_view()[i as int] == comps@[i as int]@);
        }
        let c = &comps[i];
        if bytes_eq(c, &dotv) {
        } else if bytes_eq(c, &dotdotv) {
            let mut popped = false;
            if stack.len() > 0 {
                let top = &stack[stack.len() - 1];
                let top_is_dotdot = bytes_eq(top, &dotdotv);
                let top_is_drive = top.len() == 2 && top[1] == 0x3A && ((0x41 <= top[0] && top[0]
                    <= 0x5A) || (0x61 <= top[0] && top[0] <= 0x7A));
                assert(top_is_drive == is_drive_comp(stack.deep_view().last())) by {
                    assert(stack.deep_view().last() == stack@[stack@.len() - 1]@);
                }
                if !top_is_dotdot && !top_is_drive {
                    assert(stack.deep_view().last() == stack@[stack@.len() - 1]@);
                    let _ = stack.pop();
                    popped = true;
                    assert(stack.deep_view() =~~= norm_comps(
                        comps.deep_view().take(i as int),
                    ).drop_last());
                }
            }
            if !popped {
                let cc = copy_bytes(c);
                stack.push(cc);
                assert(stack.deep_view() =~~= norm_comps(comps.deep_view().take(i as int)) + seq![
                    comps.deep_view()[i as int],
                ]);
            }
        } else {
            let cc = copy_bytes(c);
            stack.push(cc);
            assert(stack.deep_view() =~~= norm_comps(comps.deep_view().take(i as int)) + seq![
                comps.deep_view()[i as int],
            ]);
        }
        assert(stack.deep_view() =~~= norm_comps(comps.deep_view().take(i + 1)));
        i = i + 1;
    }
    assert(comps.deep_view().take(comps.deep_view().len() as int) =~~= comps.deep_view());
    let mut out: Vec<u8> = Vec::new();
    let ghost prefix: Seq<u8> = if is_absolute(path@) {
        seq![0x2Fu8]
    } else {
        Seq::<u8>::empty()
    };
    if path.len() > 0 && (path[0] == 0x2F || path[0] == 0x5C) {
        out.push(0x2F);
    }
    assert(out@ =~= prefix);
    let mut j: usize = 0;
    assert(join_comps(stack.deep_view().take(0)) =~= Seq::<u8>::empty());
    while j < stack.len()
        invariant
            0 <= j <= stack@.len(),
            out@ == prefix + join_comps(stack.deep_view().take(j as int)),
        decreases stack@.len() - j,
    {
        proof {
            assert(stack.deep_view().take(j + 1).drop_last() =~~= stack.deep_view().take(j as int));
            assert(stack.deep_view().take(j + 1).last() == stack@[j as int]@);
        }
        if j > 0 {
            out.push(0x2F);
        }
        push_all(&mut out, &stack[j]);
        assert(out@ =~= prefix + join_comps(stack.deep_view().take(j + 1)));
        j = j + 1;
    }
    assert(stack.deep_view().take(stack.deep_view().len() as int) =~~= stack.deep_view());
    assert(out@ =~= normalize_spec(path@));
    out
}

/// True when `p` lies inside the directory `dir`: it is the directory
/// itself, or continues past it at a separator boundary. A mere byte prefix
/// is not enough — a sibling whose name extends the directory's is outside.
pub open spec fn within_dir(p: Seq<u8>, dir: Seq<u8>) -> bool {
    p == dir || starts_with(p, dir + seq![0x2Fu8])
}

/// Resolves a file read beside the executable: joins, normalizes, and
/// refuses any path that escapes the executable's directory. The comparison
/// runs against the normalizer's rendering, which writes '/' between
/// components, so the caller passes the directory in its '/' form.
pub fn resolve_local_file_path(exe_dir: &Vec<u8>, filename: &Vec<u8>) -> (r: Result<
    Vec<u8>,
    MaaError,
>)
    ensures
        ({
            let p = normalize_spec(exe_dir@ + seq![0x2Fu8] + filename@);
            if within_dir(p, exe_dir@) {
                r matches Ok(v) && v@ == p
            } else {
                r == Err::<Vec<u8>, MaaError>(MaaError::InvalidConfig)
            }
        }),
{
    let mut joined = copy_bytes(exe_dir);
    joined.push(0x2F);
    push_all(&mut joined, filename);
    assert(joined@ =~= exe_dir@ + seq![0x2Fu8] + filename@);
    let p = normalize_path(&joined);
    let mut boundary = copy_bytes(exe_dir);
    boundary.push(0x2F);
    assert(boundary@ =~= exe_dir@ + seq![0x2Fu8]);
    if bytes_eq(&p, exe_dir) || crate::bytes::check_starts_with(&p, &boundary) {
        Ok(p)
    } else {
        Err(MaaError::InvalidConfig)
    }
}

/// The engine directory beside the executable: "maafw".
pub open spec fn maafw_dir_spec(exe_dir: Seq<u8>) -> Seq<u8> {
    exe_dir + seq![0x2Fu8, 0x6D, 0x61, 0x61, 0x66, 0x77]
}

/// The directory the engine library is loaded from by default: the
/// "maafw" directory beside the executable.
pub fn get_maafw_dir(exe_dir: &Vec<u8>) -> (r: Vec<u8>)
    ensures
        r@ == maafw_dir_spec(exe_dir@),
{
    let mut r = copy_bytes(exe_dir);
    r.push(0x2F);
    r.push(0x6D);
    r.push(0x61);
    r.push(0x61);
    r.push(0x66);
    r.push(0x77);
    assert(r@ =~= maafw_dir_spec(exe_dir@));
    r
}

/// The library directory an initialization call settles on: the provided
/// one when nonempty, the default beside the executable otherwise.
pub fn resolve_lib_dir(lib_dir: Option<&Vec<u8>>, exe_dir: &Vec<u8>) -> (r: Vec<u8>)
    ensures
        r@ == (match lib_dir {
            Some(d) => if d@.len() > 0 {
                d@
            } else {
                maafw_dir_spec(exe_dir@)
            },
            None => maafw_dir_spec(exe_dir@),
        }),
{
    match lib_dir {
        Some(d) => {
            if d.len() > 0 {
                copy_bytes(d)
            } else {
                get_maafw_dir(exe_dir)
            }
        },
        None => get_maafw_dir(exe_dir),
    }
}

/// The path with its trailing separators removed.
pub open spec fn strip_trailing_seps(s: Seq<u8>) -> Seq<u8>
    decreases s.len(),
{
    if s.len() > 0 && is_sep(s.last()) {
        strip_trailing_seps(s.drop_last())
    } else {
        s
    }
}

/// True of a filesystem root: once trailing separators are gone, no
/// separator remains (a bare drive prefix or the root itself).
pub open spec fn is_root_path(s: Seq<u8>) -> bool {
    forall|j: int|
        0 <= j < strip_trailing_seps(s).len() ==> !is_sep(#[trigger] strip_trailing_seps(s)[j])
}

/// "root" — the executable sits in a filesystem root.
pub open spec fn concern_root() -> Seq<u8> {
    seq![0x72u8, 0x6F, 0x6F, 0x74]
}

/// "temp" — the executable sits in a temporary directory.
pub open spec fn concern_temp() -> Seq<u8> {
    seq![0x74u8, 0x65, 0x6D, 0x70]
}

/// True when the lowered executable directory marks a temporary location:
/// it holds one of the indicator substrings, or extends one of the lowered
/// environment-named temporary directories.
pub open spec fn is_temp_path(
    exe_dir: Seq<u8>,
    temp_env: Option<Vec<u8>>,
    tmp_env: Option<Vec<u8>>,
) -> bool {
    let lower = ascii_lower(exe_dir);
    ||| exists|k: int|
        0 <= k < temp_indicators().len() && contains_sub(lower, #[trigger] temp_indicators()[k])
    ||| (temp_env matches Some(t) && starts_with(lower, ascii_lower(t@)))
    ||| (tmp_env matches Some(t) && starts_with(lower, ascii_lower(t@)))
}

/// Strips trailing separators.
fn strip_trailing(s: &Vec<u8>) -> (r: Vec<u8>)
    ensures
        r@ == strip_trailing_seps(s@),
{
    let mut hi: usize = s.len();
    assert(s@.take(s@.len() as int) =~= s@);
    while hi > 0 && (s[hi - 1] == 0x2F || s[hi - 1] == 0x5C)
        invariant
            0 <= hi <= s@.len(),
            strip_trailing_seps(s@) == strip_trailing_seps(s@.take(hi as int)),
        decreases hi,
    {
        proof {
            assert(s@.take(hi as int).drop_last() =~= s@.take(hi - 1));
            assert(is_sep(s@.take(hi as int).last()));
        }
        hi = hi - 1;
    }
    proof {
        if hi > 0 {
            assert(!is_sep(s@.take(hi as int).last()));
        }
        assert(strip_trailing_seps(s@.take(hi as int)) == s@.take(hi as int));
    }
    subrange_vec(s, 0, hi)
}

/// Examines where the executable sits: a filesystem root gives "root", a
/// temporary directory gives "temp", anywhere else gives nothing. The two
/// environment values are the process's named temporary directories, when
/// set.
pub fn check_exe_path(
    exe_dir: &Vec<u8>,
    temp_env: Option<&Vec<u8>>,
    tmp_env: Option<&Vec<u8>>,
) -> (r: Option<Vec<u8>>)
    ensures
        is_root_path(exe_dir@) ==> (r matches Some(v) && v@ == concern_root()),
        !is_root_path(exe_dir@) && is_temp_path(
            exe_dir@,
            match temp_env {
                Some(t) => Some(*t),
                None => None,
            },
            match tmp_env {
                Some(t) => Some(*t),
                None => None,
            },
        ) ==> (r matches Some(v) && v@ == concern_temp()),
        !is_root_path(exe_dir@) && !is_temp_path(
            exe_dir@,
            match temp_env {
                Some(t) => Some(*t),
                None => None,
            },
            match tmp_env {
                Some(t) => Some(*t),
                None => None,
            },
        ) ==> r is None,
{
    let stripped = strip_trailing(exe_dir);
    let mut rooted = true;
    let mut i: usize = 0;
    while i < stripped.len()
        invariant
            0 <= i <= stripped@.len(),
            stripped@ == strip_trailing_seps(exe_dir@),
            rooted == (forall|j: int| 0 <= j < i ==> !is_sep(#[trigger] stripped@[j])),
        decreases stripped@.len() - i,
    {
        if stripped[i] == 0x2F || stripped[i] == 0x5C {
            rooted = false;
        }
        i = i + 1;
    }
    assert(rooted == is_root_path(exe_dir@));
    if rooted {
        let mut v: Vec<u8> = Vec::new();
        v.push(0x72);
        v.push(0x6F);
        v.push(0x6F);
        v.push(0x74);
        assert(v@ =~= concern_root());
        return Some(v);
    }
    let lower = to_ascii_lower(exe_dir);
    let inds = temp_indicator_list();
    let mut k: usize = 0;
    while k < inds.len()
        invariant
            0 <= k <= inds@.len(),
            !is_root_path(exe_dir@),
            lower@ == ascii_lower(exe_dir@),
            inds.deep_view() == temp_indicators(),
            forall|j: int|
                0 <= j < k ==> !contains_sub(lower@, #[trigger] inds.deep_view()[j]),
        decreases inds@.len() - k,
    {
        assert(inds.deep_view()[k as int] == inds@[k as int]@);
        match crate::bytes::find_sub(&lower, &inds[k]) {
            Some(_) => {
                let mut v: Vec<u8> = Vec::new();
                v.push(0x74);
                v.push(0x65);
                v.push(0x6D);
                v.push(0x70);
                assert(v@ =~= concern_temp());
                return Some(v);
            },
            None => {},
        }
        k = k + 1;
    }
    match temp_env {
        Some(t) => {
            let tl = to_ascii_lower(t);
            if crate::bytes::check_starts_with(&lower, &tl) {
                let mut v: Vec<u8> = Vec::new();
                v.push(0x74);
                v.push(0x65);
                v.push(0x6D);
                v.push(0x70);
                assert(v@ =~= concern_temp());
                return Some(v);
            }
        },
        None => {},
    }
    match tmp_env {
        Some(t) => {
            let tl = to_ascii_lower(t);
            if crate::bytes::check_starts_with(&lower, &tl) {
                let mut v: Vec<u8> = Vec::new();
                v.push(0x74);
                v.push(0x65);
                v.push(0x6D);
                v.push(0x70);
                assert(v@ =~= concern_temp());
                return Some(v);
            }
        },
        None => {},
    }
    None
}

/// The backup directory under the install root: "cache/old" beside the
/// executable.
pub fn old_folder_path(exe_dir: &Vec<u8>) -> (r: Vec<u8>)
    ensures
        r@ == exe_dir@ + seq![0x2Fu8, 0x63, 0x61, 0x63, 0x68, 0x65, 0x2F, 0x6F, 0x6C, 0x64],
{
    let mut r = copy_bytes(exe_dir);
    r.push(0x2F);
    r.push(0x63);
    r.push(0x61);
    r.push(0x63);
    r.push(0x68);
    r.push(0x65);
    r.push(0x2F);
    r.push(0x6F);
    r.push(0x6C);
    r.push(0x64);
    assert(r@ =~= exe_dir@ + seq![0x2Fu8, 0x63, 0x61, 0x63, 0x68, 0x65, 0x2F, 0x6F, 0x6C, 0x64]);
    r
}

/// Three decimal digits, zero-padded.
pub open spec fn pad3(i: nat) -> Seq<u8> {
    if i < 10 {
        seq![0x30u8, 0x30] + dec_digits(i)
    } else if i < 100 {
        seq![0x30u8] + dec_digits(i)
    } else {
        dec_digits(i)
    }
}

/// One step of backup slot selection. A free slot — or slot 999, the last,
/// which is overwritten once all are taken — is where the displaced file
/// goes; an occupied earlier slot sends the search to the next one.
pub fn backup_slot_step(slot: u64, occupied: bool) -> (r: Result<u64, u64>)
    ensures
        !occupied || slot == 999 ==> r == Ok::<u64, u64>(slot),
        occupied && slot < 999 ==> r == Err::<u64, u64>((slot + 1) as u64),
{
    if !occupied || slot >= 999 {
        Ok(slot)
    } else {
        Err(slot + 1)
    }
}

/// The numbered backup name a displaced file moves to: the original name
/// with ".bak" and a three-digit slot number. Slots run 1 to 999; when all
/// are taken the last is overwritten.
pub fn bak_candidate(file_name: &Vec<u8>, i: u64) -> (r: Vec<u8>)
    requires
        1 <= i <= 999,
    ensures
        r@ == file_name@ + seq![0x2Eu8, 0x62, 0x61, 0x6B] + pad3(i as nat),
{
    let mut r = copy_bytes(file_name);
    r.push(0x2E);
    r.push(0x62);
    r.push(0x61);
    r.push(0x6B);
    if i < 10 {
        r.push(0x30);
        r.push(0x30);
    } else if i < 100 {
        r.push(0x30);
    }
    let d = u64_to_dec(i);
    push_all(&mut r, &d);
    assert(r@ =~= file_name@ + seq![0x2Eu8, 0x62, 0x61, 0x6B] + pad3(i as nat));
    r
}

/// The client identification string: the product tag, its version, the
/// platform triple fields, and the framework version.
pub fn build_user_agent(
    version: &Vec<u8>,
    os: &Vec<u8>,
    arch: &Vec<u8>,
    tauri_version: &Vec<u8>,
) -> (r: Vec<u8>)
    ensures
        r@ == seq![0x4Du8, 0x58, 0x55, 0x2F] + version@ + seq![0x20u8, 0x28] + os@ + seq![0x3Bu8, 0x20] + arch@ + seq![0x29u8, 0x20, 0x54, 0x61, 0x75, 0x72, 0x69, 0x2F] + tauri_version@,
{
    let mut r: Vec<u8> = Vec::new();
    r.push(0x4D);
    r.push(0x58);
    r.push(0x55);
    r.push(0x2F);
    push_all(&mut r, version);
    r.push(0x20);
    r.push(0x28);
    push_all(&mut r, os);
    r.push(0x3B);
    r.push(0x20);
    push_all(&mut r, arch);
    r.push(0x29);
    r.push(0x20);
    r.push(0x54);
    r.push(0x61);
    r.push(0x75);
    r.push(0x72);
    r.push(0x69);
    r.push(0x2F);
    push_all(&mut r, tauri_version);
    assert(r@ =~= seq![0x4Du8, 0x58, 0x55, 0x2F] + version@ + seq![0x20u8, 0x28] + os@ + seq![0x3Bu8, 0x20] + arch@ + seq![0x29u8, 0x20, 0x54, 0x61, 0x75, 0x72, 0x69, 0x2F] + tauri_version@);
    r
}


/// The two archive layouts an update package arrives in.
#[derive(Debug, Clone, Copy, PartialEq, Eq, Structural)]
pub enum ArchiveKind {
    /// A gzip-compressed tar stream: ".tar.gz" or ".tgz".
    TarGz,
    /// Anything else is treated as a zip archive.
    Zip,
}

/// ".tar.gz"
pub open spec fn suffix_tar_gz() -> Seq<u8> {
    seq![0x2Eu8, 0x74, 0x61, 0x72, 0x2E, 0x67, 0x7A]
}

/// ".tgz"
pub open spec fn suffix_tgz() -> Seq<u8> {
    seq![0x2Eu8, 0x74, 0x67, 0x7A]
}

/// Picks the unpacker an archive path selects, by its lowered suffix:
/// ".tar.gz" and ".tgz" choose the tar stream, everything else the zip
/// reader.
pub fn archive_kind(path: &Vec<u8>) -> (r: ArchiveKind)
    ensures
        r == (if crate::bytes::ends_with(ascii_lower(path@), suffix_tar_gz())
            || crate::bytes::ends_with(ascii_lower(path@), suffix_tgz()) {
            ArchiveKind::TarGz
        } else {
            ArchiveKind::Zip
        }),
{
    let lower = to_ascii_lower(path);
    let mut targz: Vec<u8> = Vec::new();
    targz.push(0x2E);
    targz.push(0x74);
    targz.push(0x61);
    targz.push(0x72);
    targz.push(0x2E);
    targz.push(0x67);
    targz.push(0x7A);
    assert(targz@ =~= suffix_tar_gz());
    let mut tgz: Vec<u8> = Vec::new();
    tgz.push(0x2E);
    tgz.push(0x74);
    tgz.push(0x67);
    tgz.push(0x7A);
    assert(tgz@ =~= suffix_tgz());
    if crate::bytes::check_ends_with(&lower, &targz) || crate::bytes::check_ends_with(&lower, &tgz) {
        ArchiveKind::TarGz
    } else {
        ArchiveKind::Zip
    }
}

} // verus!
