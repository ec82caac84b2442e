//! The preprocessor: one pass over the lines of a shader source that keeps or
//! elides feature-gated regions and inlines imported modules.

use vstd::prelude::*;
use vstd::string::StrSliceExecFns;
use crate::directive::{LineKind, Directive, line_kind, classify};
use crate::tables::{FeatureSet, ImportTable};
use crate::text::{chars_of, copy_range};

verus! {

/// Why a source could not be preprocessed. Lines are indexed from zero.
#[derive(Debug, Clone, Copy, PartialEq, Eq)]
pub enum PreprocessError {
    /// A directive line that does not parse.
    MalformedDirective { line: usize },
    /// An `#import` of a module that the table does not hold.
    UnknownImport { line: usize },
    /// An `#else` or `#endif` with no open region, or a second `#else`.
    UnbalancedRegion { line: usize },
    /// A region still open at the end of the source.
    UnclosedRegion,
    /// Shared modules that import each other in a cycle.
    ImportCycle,
}

/// An open `#ifdef` / `#ifndef` region.
#[derive(Clone, Copy)]
pub struct Gate {
    /// Whether lines in the current branch are kept.
    pub active: bool,
    /// Whether the region's `#else` has been passed.
    pub else_seen: bool,
}

/// The preprocessor's state after some lines: the open regions, innermost
/// last, and one output piece per line read.
pub struct Scan {
    pub stack: Seq<Gate>,
    pub out: Seq<Seq<char>>,
}

/// The lines of `s`, split at each `'\n'`; a source always has at least one
/// line, possibly empty.
pub open spec fn split_lines(s: Seq<char>) -> Seq<Seq<char>>
    decreases s.len(),
{
    if s.len() == 0 {
        seq![Seq::empty()]
    } else {
        let p = split_lines(s.drop_last());
        if s.last() == '\n' {
            p.push(Seq::empty())
        } else {
            p.update(p.len() - 1, p.last().push(s.last()))
        }
    }
}

/// The pieces joined by `'\n'`.
pub open spec fn join_lines(ls: Seq<Seq<char>>) -> Seq<char>
    decreases ls.len(),
{
    if ls.len() == 0 {
        Seq::empty()
    } else if ls.len() == 1 {
        ls[0]
    } else {
        join_lines(ls.drop_last()) + seq!['\n'] + ls.last()
    }
}

/// Lines are kept when every open region is in an active branch.
pub open spec fn live(stack: Seq<Gate>) -> bool {
    forall|i: int| 0 <= i < stack.len() ==> stack[i].active
}

/// The output piece for a kept or elided line.
pub open spec fn kept(stack: Seq<Gate>, text: Seq<char>) -> Seq<char> {
    if live(stack) {
        text
    } else {
        Seq::empty()
    }
}

/// Reading the line at index `number`. Directive lines leave an empty
/// line behind, so that line numbers in the output match the source's; an
/// import line is replaced by the module's text.
pub open spec fn step(
    st: Scan,
    line: Seq<char>,
    number: int,
    features: Set<Seq<char>>,
    imports: Map<Seq<char>, Seq<char>>,
) -> Result<Scan, PreprocessError> {
    match line_kind(line) {
        LineKind::Text => Ok(Scan { stack: st.stack, out: st.out.push(kept(st.stack, line)) }),
        LineKind::Import(n) => if imports.contains_key(n) {
            Ok(Scan { stack: st.stack, out: st.out.push(kept(st.stack, imports[n])) })
        } else {
            Err(PreprocessError::UnknownImport { line: number as usize })
        },
        LineKind::IfDef(n) => Ok(
            Scan {
                stack: st.stack.push(Gate { active: features.contains(n), else_seen: false }),
                out: st.out.push(Seq::empty()),
            },
        ),
        LineKind::IfNDef(n) => Ok(
            Scan {
                stack: st.stack.push(Gate { active: !features.contains(n), else_seen: false }),
                out: st.out.push(Seq::empty()),
            },
        ),
        LineKind::Else => if st.stack.len() == 0 || st.stack.last().else_seen {
            Err(PreprocessError::UnbalancedRegion { line: number as usize })
        } else {
            Ok(
                Scan {
                    stack: st.stack.update(
                        st.stack.len() - 1,
                        Gate { active: !st.stack.last().active, else_seen: true },
                    ),
                    out: st.out.push(Seq::empty()),
                },
            )
        },
        LineKind::EndIf => if st.stack.len() == 0 {
            Err(PreprocessError::UnbalancedRegion { line: number as usize })
        } else {
            Ok(Scan { stack: st.stack.drop_last(), out: st.out.push(Seq::empty()) })
        },
        LineKind::Malformed => Err(PreprocessError::MalformedDirective { line: number as usize }),
    }
}

/// The state after reading `lines` in order, or the first error.
pub open spec fn scan(
    lines: Seq<Seq<char>>,
    features: Set<Seq<char>>,
    imports: Map<Seq<char>, Seq<char>>,
) -> Result<Scan, PreprocessError>
    decreases lines.len(),
{
    if lines.len() == 0 {
        Ok(Scan { stack: Seq::empty(), out: Seq::empty() })
    } else {
        match scan(lines.drop_last(), features, imports) {
            Err(e) => Err(e),
            Ok(st) => step(st, lines.last(), lines.len() - 1, features, imports),
        }
    }
}

/// What `src` preprocesses to under `features` and `imports`.
pub open spec fn preprocessed(
    src: Seq<char>,
    features: Set<Seq<char>>,
    imports: Map<Seq<char>, Seq<char>>,
) -> Result<Seq<char>, PreprocessError> {
    match scan(split_lines(src), features, imports) {
        Err(e) => Err(e),
        Ok(st) => if st.stack.len() > 0 {
            Err(PreprocessError::UnclosedRegion)
        } else {
            Ok(join_lines(st.out))
        },
    }
}

pub(crate) proof fn lemma_split_nonempty(s: Seq<char>)
    ensures
        split_lines(s).len() >= 1,
    decreases s.len(),
{
    if s.len() > 0 {
        lemma_split_nonempty(s.drop_last());
    }
}

pub(crate) proof fn lemma_split_grows(s: Seq<char>, j: int, k: int)
    requires
        0 <= j <= k <= s.len(),
    ensures
        split_lines(s.take(k)).len() >= split_lines(s.take(j)).len(),
        split_lines(s.take(k)).subrange(0, split_lines(s.take(j)).len() - 1)
            == split_lines(s.take(j)).drop_last(),
    decreases k - j,
{
    lemma_split_nonempty(s.take(j));
    if k == j {
        assert(split_lines(s.take(k)).subrange(0, split_lines(s.take(j)).len() - 1)
            =~= split_lines(s.take(j)).drop_last());
    } else {
        lemma_split_grows(s, j, k - 1);
        lemma_split_nonempty(s.take(k - 1));
        assert(s.take(k).drop_last() =~= s.take(k - 1));
        assert(split_lines(s.take(k)).subrange(0, split_lines(s.take(j)).len() - 1)
            =~= split_lines(s.take(j)).drop_last());
    }
}

proof fn lemma_scan_prefix_error(
    lines: Seq<Seq<char>>,
    m: int,
    features: Set<Seq<char>>,
    imports: Map<Seq<char>, Seq<char>>,
)
    requires
        0 <= m <= lines.len(),
        scan(lines.take(m), features, imports) is Err,
    ensures
        scan(lines, features, imports) == scan(lines.take(m), features, imports),
    decreases lines.len(),
{
    if m == lines.len() {
        assert(lines.take(m) =~= lines);
    } else {
        assert(lines.drop_last().take(m) =~= lines.take(m));
        lemma_scan_prefix_error(lines.drop_last(), m, features, imports);
    }
}

proof fn lemma_split_prefix_error(
    s: Seq<char>,
    k: int,
    lines: Seq<Seq<char>>,
    e: PreprocessError,
    features: Set<Seq<char>>,
    imports: Map<Seq<char>, Seq<char>>,
)
    requires
        0 <= k <= s.len(),
        lines == split_lines(s.take(k)).drop_last(),
        scan(lines, features, imports) == Err::<Scan, PreprocessError>(e),
    ensures
        preprocessed(s, features, imports) == Err::<Seq<char>, PreprocessError>(e),
{
    lemma_split_nonempty(s.take(k));
    lemma_split_grows(s, k, s.len() as int);
    assert(s.take(s.len() as int) =~= s);
    let all = split_lines(s);
    assert(all.take(lines.len() as int) =~= all.subrange(0, lines.len() as int));
    lemma_scan_prefix_error(all, lines.len() as int, features, imports);
}

/// Whether some `#ifdef` or `#ifndef` line of `src` tests `name`.
pub open spec fn gates_on(src: Seq<char>, name: Seq<char>) -> bool {
    exists|i: int|
        0 <= i < split_lines(src).len() && (line_kind(split_lines(src)[i]) == LineKind::IfDef(name)
            || line_kind(split_lines(src)[i]) == LineKind::IfNDef(name))
}

proof fn lemma_scan_features(
    lines: Seq<Seq<char>>,
    f1: Set<Seq<char>>,
    f2: Set<Seq<char>>,
    imports: Map<Seq<char>, Seq<char>>,
)
    requires
        forall|i: int, n: Seq<char>|
            0 <= i < lines.len() && (line_kind(lines[i]) == LineKind::IfDef(n) || line_kind(lines[i])
                == LineKind::IfNDef(n)) ==> f1.contains(n) == f2.contains(n),
    ensures
        scan(lines, f1, imports) == scan(lines, f2, imports),
    decreases lines.len(),
{
    if lines.len() > 0 {
        let k = lines.len() - 1;
        assert forall|i: int, n: Seq<char>|
            0 <= i < lines.drop_last().len() && (line_kind(lines.drop_last()[i]) == LineKind::IfDef(n)
                || line_kind(lines.drop_last()[i]) == LineKind::IfNDef(n)) implies f1.contains(n)
            == f2.contains(n) by {
            assert(lines.drop_last()[i] == lines[i]);
        }
        lemma_scan_features(lines.drop_last(), f1, f2, imports);
        match line_kind(lines[k]) {
            LineKind::IfDef(n) => {
                assert(f1.contains(n) == f2.contains(n));
            },
            LineKind::IfNDef(n) => {
                assert(f1.contains(n) == f2.contains(n));
            },
            _ => {},
        }
    }
}

/// A feature name that no region of the source tests changes nothing: the
/// source preprocesses the same whether the name is active or not.
pub proof fn lemma_unknown_feature_ignored(
    src: Seq<char>,
    features: Set<Seq<char>>,
    imports: Map<Seq<char>, Seq<char>>,
    name: Seq<char>,
)
    requires
        !gates_on(src, name),
    ensures
        preprocessed(src, features.insert(name), imports) == preprocessed(
            src,
            features.remove(name),
            imports,
        ),
{
    let lines = split_lines(src);
    assert forall|i: int, n: Seq<char>|
        0 <= i < lines.len() && (line_kind(lines[i]) == LineKind::IfDef(n) || line_kind(lines[i])
            == LineKind::IfNDef(n)) implies features.insert(name).contains(n) == features.remove(
        name,
    ).contains(n) by {
        assert(n != name);
    }
    lemma_scan_features(lines, features.insert(name), features.remove(name), imports);
}

proof fn lemma_join_split(s: Seq<char>)
    ensures
        join_lines(split_lines(s)) == s,
    decreases s.len(),
{
    if s.len() > 0 {
        let t = s.drop_last();
        lemma_join_split(t);
        lemma_split_nonempty(t);
        let p = split_lines(t);
        if s.last() == '\n' {
            assert(p.push(Seq::empty()).drop_last() =~= p);
            assert(s =~= t + seq!['\n'] + Seq::<char>::empty());
        } else {
            let q = p.update(p.len() - 1, p.last().push(s.last()));
            if p.len() == 1 {
                assert(s =~= t.push(s.last()));
            } else {
                assert(q.drop_last() =~= p.drop_last());
                assert(join_lines(p) == join_lines(p.drop_last()) + seq!['\n'] + p.last());
                assert(s =~= t.push(s.last()));
                assert(s =~= join_lines(p.drop_last()) + seq!['\n'] + p.last().push(s.last()));
            }
        }
    }
}

proof fn lemma_scan_plain(
    lines: Seq<Seq<char>>,
    features: Set<Seq<char>>,
    imports: Map<Seq<char>, Seq<char>>,
)
    requires
        forall|i: int| 0 <= i < lines.len() ==> line_kind(#[trigger] lines[i]) == LineKind::Text,
    ensures
        scan(lines, features, imports) == Ok::<Scan, PreprocessError>(
            Scan { stack: Seq::empty(), out: lines },
        ),
    decreases lines.len(),
{
    if lines.len() > 0 {
        assert(forall|i: int| 0 <= i < lines.drop_last().len() ==> lines.drop_last()[i] == lines[i]);
        lemma_scan_plain(lines.drop_last(), features, imports);
        assert(line_kind(lines[lines.len() - 1]) == LineKind::Text);
        assert(line_kind(lines.last()) == LineKind::Text);
        assert(live(Seq::<Gate>::empty()));
        assert(lines.drop_last().push(lines.last()) =~= lines);
    } else {
        assert(lines =~= Seq::<Seq<char>>::empty());
    }
}

/// A source in which no line is a directive preprocesses to itself, whatever
/// the features and imports.
pub proof fn lemma_plain_source_unchanged(
    src: Seq<char>,
    features: Set<Seq<char>>,
    imports: Map<Seq<char>, Seq<char>>,
)
    requires
        forall|i: int|
            0 <= i < split_lines(src).len() ==> line_kind(#[trigger] split_lines(src)[i])
                == LineKind::Text,
    ensures
        preprocessed(src, features, imports) == Ok::<Seq<char>, PreprocessError>(src),
{
    lemma_scan_plain(split_lines(src), features, imports);
    lemma_join_split(src);
}

fn all_active(stack: &Vec<Gate>) -> (r: bool)
    ensures
        r == live(stack@),
{
    let mut i: usize = 0;
    while i < stack.len()
        invariant
            i <= stack@.len(),
            forall|j: int| 0 <= j < i ==> stack@[j].active,
        decreases stack@.len() - i,
    {
        if !stack[i].active {
            return false;
        }
        i = i + 1;
    }
    true
}

/// Reads the line `chars[start..end]` of `src`, appending its piece to `out`.
fn feed(
    src: &str,
    chars: &Vec<char>,
    start: usize,
    end: usize,
    number: usize,
    stack: &mut Vec<Gate>,
    out: &mut String,
    outs: Ghost<Seq<Seq<char>>>,
    first: bool,
    features: &FeatureSet,
    imports: &ImportTable,
) -> (r: Result<(), PreprocessError>)
    requires
        chars@ == src@,
        start <= end <= chars@.len(),
        old(out)@ == join_lines(outs@),
        first == (outs@.len() == 0),
    ensures
        ({
            let st = step(
                Scan { stack: old(stack)@, out: outs@ },
                chars@.subrange(start as int, end as int),
                number as int,
                features@,
                imports@,
            );
            match st {
                Err(e) => r == Err::<(), PreprocessError>(e),
                Ok(s) => r is Ok && final(stack)@ == s.stack && final(out)@ == join_lines(s.out),
            }
        }),
{
    let line = copy_range(chars, start, end);
    let ghost ln = line@;
    let ghost piece: Seq<char>;
    proof {
        reveal_strlit("\n");
    }
    if !first {
        out.append("\n");
    }
    let ghost sep = if outs@.len() > 0 { seq!['\n'] } else { Seq::<char>::empty() };
    assert(out@ == join_lines(outs@) + sep);
    let d = classify(&line);
    match d {
        Directive::Text => {
            if all_active(stack) {
                out.append(src.substring_char(start, end));
            }
            proof { piece = kept(stack@, ln); }
        },
        Directive::Import(n) => {
            match imports.get(&n) {
                None => {
                    return Err(PreprocessError::UnknownImport { line: number });
                },
                Some(t) => {
                    if all_active(stack) {
                        out.append(t.as_str());
                    }
                    proof { piece = kept(stack@, imports@[n@]); }
                },
            }
        },
        Directive::IfDef(n) => {
            let a = features.contains(&n);
            stack.push(Gate { active: a, else_seen: false });
            proof { piece = Seq::empty(); }
        },
        Directive::IfNDef(n) => {
            let a = features.contains(&n);
            stack.push(Gate { active: !a, else_seen: false });
            proof { piece = Seq::empty(); }
        },
        Directive::Else => {
            let k = stack.len();
            if k == 0 || stack[k - 1].else_seen {
                return Err(PreprocessError::UnbalancedRegion { line: number });
            }
            let g = Gate { active: !stack[k - 1].active, else_seen: true };
            stack.set(k - 1, g);
            proof { piece = Seq::empty(); }
        },
        Directive::EndIf => {
            if stack.len() == 0 {
                return Err(PreprocessError::UnbalancedRegion { line: number });
            }
            stack.pop();
            proof { piece = Seq::empty(); }
        },
        Directive::Malformed => {
            return Err(PreprocessError::MalformedDirective { line: number });
        },
    }
    proof {
        let outs2 = outs@.push(piece);
        assert(outs2.drop_last() =~= outs@);
        if outs@.len() == 0 {
            assert(out@ =~= join_lines(outs2));
        }
    }
    Ok(())
}

/// Preprocesses `src`: keeps or elides the lines of each `#ifdef name` /
/// `#ifndef name` region (with an optional `#else`) by whether `name` is in
/// `features`, and replaces each `#import name` line by the text of `name`
/// in `imports`. Directive lines become empty lines; other lines are kept as
/// they are, so a source without directives comes back unchanged.
pub fn preprocess(src: &str, features: &FeatureSet, imports: &ImportTable) -> (r: Result<
    String,
    PreprocessError,
>)
    ensures
        match preprocessed(src@, features@, imports@) {
            Ok(t) => r is Ok && r->Ok_0@ == t,
            Err(e) => r == Err::<String, PreprocessError>(e),
        },
{
    let chars = chars_of(src);
    let n = chars.len();
    let mut stack: Vec<Gate> = Vec::new();
    let mut out = String::new();
    let ghost mut done: Seq<Seq<char>> = Seq::empty();
    let ghost mut outs: Seq<Seq<char>> = Seq::empty();
    let mut start: usize = 0;
    let mut i: usize = 0;
    let mut number: usize = 0;
    assert(chars@.take(0) =~= Seq::<char>::empty());
    assert(chars@.subrange(0, 0) =~= Seq::<char>::empty());
    while i < n
        invariant
            chars@ == src@,
            n == chars@.len(),
            start <= i <= n,
            number == done.len(),
            outs.len() == done.len(),
            done.len() <= i,
            split_lines(chars@.take(i as int)) == done.push(chars@.subrange(start as int, i as int)),
            scan(done, features@, imports@) == Ok::<Scan, PreprocessError>(
                Scan { stack: stack@, out: outs },
            ),
            out@ == join_lines(outs),
        decreases n - i,
    {
        let c = chars[i];
        let ghost cur = chars@.subrange(start as int, i as int);
        assert(chars@.take(i + 1).drop_last() =~= chars@.take(i as int));
        assert(chars@.take(i + 1).last() == c);
        if c == '\n' {
            let ghost st0 = Scan { stack: stack@, out: outs };
            let fed = feed(src, &chars, start, i, number, &mut stack, &mut out, Ghost(outs), number == 0, features, imports);
            let ghost done2 = done.push(cur);
            assert(done2.drop_last() =~= done);
            match fed {
                Err(e) => {
                    proof {
                        assert(split_lines(chars@.take(i + 1)) == done2.push(Seq::<char>::empty()));
                        assert(split_lines(chars@.take(i + 1)).drop_last() =~= done2);
                        lemma_split_prefix_error(chars@, (i + 1) as int, done2, e, features@, imports@);
                    }
                    return Err(e);
                },
                Ok(()) => {},
            }
            proof {
                outs = step(st0, cur, number as int, features@, imports@)->Ok_0.out;
                done = done2;
            }
            start = i + 1;
            number = number + 1;
            assert(chars@.subrange(start as int, (i + 1) as int) =~= Seq::<char>::empty());
            assert(split_lines(chars@.take(i + 1)) =~= done.push(Seq::<char>::empty()));
        } else {
            assert(chars@.subrange(start as int, (i + 1) as int) =~= cur.push(c));
            assert(split_lines(chars@.take(i + 1)) =~= done.push(cur.push(c)));
        }
        i = i + 1;
    }
    assert(chars@.take(n as int) =~= chars@);
    let ghost last = chars@.subrange(start as int, n as int);
    let ghost all = done.push(last);
    assert(all.drop_last() =~= done);
    let ghost st0 = Scan { stack: stack@, out: outs };
    let fed = feed(src, &chars, start, n, number, &mut stack, &mut out, Ghost(outs), number == 0, features, imports);
    match fed {
        Err(e) => Err(e),
        Ok(()) => {
            if stack.len() > 0 {
                Err(PreprocessError::UnclosedRegion)
            } else {
                Ok(out)
            }
        },
    }
}

} // verus!
