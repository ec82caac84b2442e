//! Flattening the shared modules: each module's `#import` lines are replaced,
//! recursively, by the flattened text of the module they name, so that the
//! preprocessor can inline any module in a single pass.

use vstd::prelude::*;
use vstd::string::StrSliceExecFns;
use crate::directive::{LineKind, Directive, line_kind, classify};
use crate::preprocess::{PreprocessError, split_lines, join_lines, lemma_split_nonempty, lemma_split_grows};
use crate::tables::ImportTable;
use crate::text::{chars_of, copy_range};

verus! {

/// The lines of a module with every import resolved, or the first error.
/// Each import spends one unit of `fuel`; running out means the imports form
/// a cycle, since a chain of imports that never repeats a module is no longer
/// than the number of modules. Other directives are kept as they are.
pub open spec fn resolve_lines(
    raw: Map<Seq<char>, Seq<char>>,
    lines: Seq<Seq<char>>,
    fuel: nat,
) -> Result<Seq<Seq<char>>, PreprocessError>
    decreases fuel, lines.len(),
{
    if lines.len() == 0 {
        Ok(Seq::empty())
    } else {
        match resolve_lines(raw, lines.drop_last(), fuel) {
            Err(e) => Err(e),
            Ok(ps) => match line_kind(lines.last()) {
                LineKind::Import(n) => if !raw.contains_key(n) {
                    Err(PreprocessError::UnknownImport { line: (lines.len() - 1) as usize })
                } else if fuel == 0 {
                    Err(PreprocessError::ImportCycle)
                } else {
                    match resolve_lines(raw, split_lines(raw[n]), (fuel - 1) as nat) {
                        Err(e) => Err(e),
                        Ok(qs) => Ok(ps.push(join_lines(qs))),
                    }
                },
                LineKind::Malformed => Err(
                    PreprocessError::MalformedDirective { line: (lines.len() - 1) as usize },
                ),
                _ => Ok(ps.push(lines.last())),
            },
        }
    }
}

/// The flattened text of a module whose source is `text`.
pub open spec fn resolved(raw: Map<Seq<char>, Seq<char>>, text: Seq<char>, fuel: nat) -> Result<
    Seq<char>,
    PreprocessError,
> {
    match resolve_lines(raw, split_lines(text), fuel) {
        Err(e) => Err(e),
        Ok(ps) => Ok(join_lines(ps)),
    }
}

proof fn lemma_resolve_prefix_error(
    raw: Map<Seq<char>, Seq<char>>,
    lines: Seq<Seq<char>>,
    m: int,
    fuel: nat,
)
    requires
        0 <= m <= lines.len(),
        resolve_lines(raw, lines.take(m), fuel) is Err,
    ensures
        resolve_lines(raw, lines, fuel) == resolve_lines(raw, lines.take(m), fuel),
    decreases lines.len(),
{
    if m == lines.len() {
        assert(lines.take(m) =~= lines);
    } else {
        assert(lines.drop_last().take(m) =~= lines.take(m));
        lemma_resolve_prefix_error(raw, lines.drop_last(), m, fuel);
    }
}

proof fn lemma_resolve_split_error(
    raw: Map<Seq<char>, Seq<char>>,
    s: Seq<char>,
    k: int,
    lines: Seq<Seq<char>>,
    fuel: nat,
)
    requires
        0 <= k <= s.len(),
        lines == split_lines(s.take(k)).drop_last(),
        resolve_lines(raw, lines, fuel) is Err,
    ensures
        resolved(raw, s, fuel) == Err::<Seq<char>, PreprocessError>(
            resolve_lines(raw, lines, fuel)->Err_0,
        ),
{
    lemma_split_nonempty(s.take(k));
    lemma_split_grows(s, k, s.len() as int);
    assert(s.take(s.len() as int) =~= s);
    let all = split_lines(s);
    assert(all.take(lines.len() as int) =~= all.subrange(0, lines.len() as int));
    lemma_resolve_prefix_error(raw, all, lines.len() as int, fuel);
}

/// Resolves the line `chars[start..end]`, appending its piece to `out`.
fn resolve_line(
    raw: &ImportTable,
    src: &str,
    chars: &Vec<char>,
    start: usize,
    end: usize,
    number: usize,
    out: &mut String,
    outs: Ghost<Seq<Seq<char>>>,
    first: bool,
    fuel: usize,
) -> (r: Result<(), PreprocessError>)
    requires
        chars@ == src@,
        start <= end <= chars@.len(),
        old(out)@ == join_lines(outs@),
        first == (outs@.len() == 0),
        number == outs@.len(),
    ensures
        ({
            let line = chars@.subrange(start as int, end as int);
            match line_kind(line) {
                LineKind::Import(n) => if !raw@.contains_key(n) {
                    r == Err::<(), PreprocessError>(PreprocessError::UnknownImport { line: number })
                } else if fuel == 0 {
                    r == Err::<(), PreprocessError>(PreprocessError::ImportCycle)
                } else {
                    match resolve_lines(raw@, split_lines(raw@[n]), (fuel - 1) as nat) {
                        Err(e) => r == Err::<(), PreprocessError>(e),
                        Ok(qs) => r is Ok && final(out)@ == join_lines(outs@.push(join_lines(qs))),
                    }
                },
                LineKind::Malformed => r == Err::<(), PreprocessError>(
                    PreprocessError::MalformedDirective { line: number },
                ),
                _ => r is Ok && final(out)@ == join_lines(outs@.push(line)),
            }
        }),
    decreases fuel, 0nat,
{
    let line = copy_range(chars, start, end);
    proof {
        reveal_strlit("\n");
    }
    if !first {
        out.append("\n");
    }
    let ghost piece: Seq<char>;
    match classify(&line) {
        Directive::Import(n) => {
            match raw.get(&n) {
                None => {
                    return Err(PreprocessError::UnknownImport { line: number });
                },
                Some(t) => {
                    if fuel == 0 {
                        return Err(PreprocessError::ImportCycle);
                    }
                    let sub = resolve_text(raw, t.as_str(), fuel - 1);
                    match sub {
                        Err(e) => {
                            return Err(e);
                        },
                        Ok(x) => {
                            out.append(x.as_str());
                            proof { piece = x@; }
                        },
                    }
                },
            }
        },
        Directive::Malformed => {
            return Err(PreprocessError::MalformedDirective { line: number });
        },
        _ => {
            out.append(src.substring_char(start, end));
            proof { piece = line@; }
        },
    }
    proof {
        let outs2 = outs@.push(piece);
        assert(outs2.drop_last() =~= outs@);
        if outs@.len() == 0 {
            assert(out@ =~= join_lines(outs2));
        }
    }
    Ok(())
}

/// Flattens `src` against the modules of `raw`, with `fuel` imports to spend
/// along any chain.
fn resolve_text(raw: &ImportTable, src: &str, fuel: usize) -> (r: Result<String, PreprocessError>)
    ensures
        match resolved(raw@, src@, fuel as nat) {
            Ok(t) => r is Ok && r->Ok_0@ == t,
            Err(e) => r == Err::<String, PreprocessError>(e),
        },
    decreases fuel, 1nat,
{
    let chars = chars_of(src);
    let n = chars.len();
    let mut out = String::new();
    let ghost mut done: Seq<Seq<char>> = Seq::empty();
    let ghost mut outs: Seq<Seq<char>> = Seq::empty();
    let mut start: usize = 0;
    let mut i: usize = 0;
    let mut number: usize = 0;
    assert(chars@.take(0) =~= Seq::<char>::empty());
    assert(chars@.subrange(0, 0) =~= Seq::<char>::empty());
    while i < n
        invariant
            chars@ == src@,
            n == chars@.len(),
            start <= i <= n,
            number == done.len(),
            outs.len() == done.len(),
            done.len() <= i,
            split_lines(chars@.take(i as int)) == done.push(chars@.subrange(start as int, i as int)),
            resolve_lines(raw@, done, fuel as nat) == Ok::<Seq<Seq<char>>, PreprocessError>(outs),
            out@ == join_lines(outs),
        decreases n - i,
    {
        let c = chars[i];
        let ghost cur = chars@.subrange(start as int, i as int);
        assert(chars@.take(i + 1).drop_last() =~= chars@.take(i as int));
        assert(chars@.take(i + 1).last() == c);
        if c == '\n' {
            let fed = resolve_line(raw, src, &chars, start, i, number, &mut out, Ghost(outs), number == 0, fuel);
            let ghost done2 = done.push(cur);
            assert(done2.drop_last() =~= done);
            assert(done2.last() == cur);
            match fed {
                Err(e) => {
                    proof {
                        assert(split_lines(chars@.take(i + 1)) == done2.push(Seq::<char>::empty()));
                        assert(split_lines(chars@.take(i + 1)).drop_last() =~= done2);
                        lemma_resolve_split_error(raw@, chars@, (i + 1) as int, done2, fuel as nat);
                    }
                    return Err(e);
                },
                Ok(()) => {},
            }
            proof {
                outs = resolve_lines(raw@, done2, fuel as nat)->Ok_0;
                done = done2;
            }
            start = i + 1;
            number = number + 1;
            assert(chars@.subrange(start as int, (i + 1) as int) =~= Seq::<char>::empty());
            assert(split_lines(chars@.take(i + 1)) =~= done.push(Seq::<char>::empty()));
        } else {
            assert(chars@.subrange(start as int, (i + 1) as int) =~= cur.push(c));
            assert(split_lines(chars@.take(i + 1)) =~= done.push(cur.push(c)));
        }
        i = i + 1;
    }
    assert(chars@.take(n as int) =~= chars@);
    let ghost last = chars@.subrange(start as int, n as int);
    let ghost all = done.push(last);
    assert(all.drop_last() =~= done);
    assert(all.last() == last);
    let fed = resolve_line(raw, src, &chars, start, n, number, &mut out, Ghost(outs), number == 0, fuel);
    match fed {
        Err(e) => Err(e),
        Ok(()) => Ok(out),
    }
}

/// Whether every module of `raw` flattens without error.
pub open spec fn all_resolve(raw: Map<Seq<char>, Seq<char>>, fuel: nat) -> bool {
    forall|k: Seq<char>| #[trigger] raw.contains_key(k) ==> resolved(raw, raw[k], fuel) is Ok
}

/// The table of flattened modules.
pub open spec fn flattened(raw: Map<Seq<char>, Seq<char>>, fuel: nat) -> Map<Seq<char>, Seq<char>> {
    Map::new(|k: Seq<char>| raw.contains_key(k), |k: Seq<char>| resolved(raw, raw[k], fuel)->Ok_0)
}

/// Builds the import table from the raw shared modules: each module's text
/// with its imports resolved recursively. Fails with the first error found
/// in some module: a malformed directive, an unknown import, or a cycle.
pub fn build_imports(raw: &ImportTable) -> (r: Result<ImportTable, PreprocessError>)
    ensures
        r is Ok <==> all_resolve(raw@, raw.size()),
        r is Ok ==> r->Ok_0@ == flattened(raw@, raw.size()),
        r is Err ==> exists|k: Seq<char>|
            raw@.contains_key(k) && resolved(raw@, raw@[k], raw.size())
                == Err::<Seq<char>, PreprocessError>(r->Err_0),
{
    let fuel = raw.len();
    let mut table = ImportTable::new();
    let mut i: usize = 0;
    while i < fuel
        invariant
            fuel == raw.size(),
            i <= fuel,
            forall|j: int| 0 <= j < i ==> resolved(raw@, raw@[raw.entry_name(j)], fuel as nat) is Ok,
            forall|k: Seq<char>|
                table@.contains_key(k) <==> exists|j: int| 0 <= j < i && raw.entry_name(j) == k,
            forall|k: Seq<char>|
                #[trigger] table@.contains_key(k) ==> raw@.contains_key(k) && table@[k] == resolved(
                    raw@,
                    raw@[k],
                    fuel as nat,
                )->Ok_0,
        decreases fuel - i,
    {
        let name = raw.name_at(i);
        let text = raw.get(name).unwrap();
        match resolve_text(raw, text.as_str(), fuel) {
            Err(e) => {
                return Err(e);
            },
            Ok(flat) => {
                let ghost before = table@;
                let key = copy_range(name, 0, name.len());
                assert(key@ =~= name@);
                table.insert_chars(key, flat);
                assert forall|k: Seq<char>|
                    table@.contains_key(k) <==> exists|j: int| 0 <= j < i + 1 && raw.entry_name(j) == k by {
                    if table@.contains_key(k) && k != name@ {
                        assert(before.contains_key(k));
                    }
                    if exists|j: int| 0 <= j < i + 1 && raw.entry_name(j) == k {
                        let j = choose|j: int| 0 <= j < i + 1 && raw.entry_name(j) == k;
                        if j < i {
                            assert(before.contains_key(k));
                        }
                    }
                }
            },
        }
        i = i + 1;
    }
    proof {
        assert forall|k: Seq<char>| #[trigger] raw@.contains_key(k) implies resolved(raw@, raw@[k], fuel as nat) is Ok by {
            raw.lemma_key_listed(k);
        }
        assert forall|k: Seq<char>| raw@.contains_key(k) implies table@.contains_key(k) by {
            raw.lemma_key_listed(k);
        }
        assert(table@ =~= flattened(raw@, fuel as nat));
    }
    Ok(table)
}

} // verus!
