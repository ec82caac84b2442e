//! Recognising directive lines: `#import name`, `#ifdef name`, `#ifndef name`,
//! `#else` and `#endif`, written either at the start of a line or right after
//! a `//` that opens the line, so that the directive hides from a shader
//! compiler as a comment.

use vstd::prelude::*;
use crate::text::span_is;
use crate::text::copy_range;

verus! {

/// Space, tab and carriage return.
pub open spec fn is_blank(c: char) -> bool {
    c == ' ' || c == '\t' || c == '\r'
}

/// ASCII letters, digits and underscore.
pub open spec fn is_ident(c: char) -> bool {
    ('a' <= c && c <= 'z') || ('A' <= c && c <= 'Z') || ('0' <= c && c <= '9') || c == '_'
}

/// The first position at or after `i` that does not hold a blank.
pub open spec fn skip_blank(s: Seq<char>, i: int) -> int
    decreases s.len() - i,
{
    if 0 <= i < s.len() && is_blank(s[i]) {
        skip_blank(s, i + 1)
    } else {
        i
    }
}

/// The end of the run of identifier characters that starts at `i`.
pub open spec fn ident_end(s: Seq<char>, i: int) -> int
    decreases s.len() - i,
{
    if 0 <= i < s.len() && is_ident(s[i]) {
        ident_end(s, i + 1)
    } else {
        i
    }
}

/// Where the directive word of `line` starts (just past its `#`), if the line
/// is a directive line.
pub open spec fn directive_start(line: Seq<char>) -> Option<int> {
    let a = skip_blank(line, 0);
    let b = if a + 1 < line.len() && line[a] == '/' && line[a + 1] == '/' {
        skip_blank(line, a + 2)
    } else {
        a
    };
    if b < line.len() && line[b] == '#' {
        Some(b + 1)
    } else {
        None
    }
}

/// What a line of shader source means to the preprocessor.
pub enum LineKind {
    Text,
    Import(Seq<char>),
    IfDef(Seq<char>),
    IfNDef(Seq<char>),
    Else,
    EndIf,
    Malformed,
}

/// The meaning of one line. A directive word other than the five known ones,
/// a missing or extra argument, or trailing text is malformed.
pub open spec fn line_kind(line: Seq<char>) -> LineKind {
    match directive_start(line) {
        None => LineKind::Text,
        Some(p) => {
            let w = ident_end(line, p);
            let word = line.subrange(p, w);
            let a = skip_blank(line, w);
            let e = ident_end(line, a);
            let name = line.subrange(a, e);
            let named = e > a && skip_blank(line, e) == line.len();
            let bare = a == line.len();
            if word == "import"@ {
                if named { LineKind::Import(name) } else { LineKind::Malformed }
            } else if word == "ifdef"@ {
                if named { LineKind::IfDef(name) } else { LineKind::Malformed }
            } else if word == "ifndef"@ {
                if named { LineKind::IfNDef(name) } else { LineKind::Malformed }
            } else if word == "else"@ {
                if bare { LineKind::Else } else { LineKind::Malformed }
            } else if word == "endif"@ {
                if bare { LineKind::EndIf } else { LineKind::Malformed }
            } else {
                LineKind::Malformed
            }
        },
    }
}

/// A classified line, with the name a directive carries.
pub enum Directive {
    Text,
    Import(Vec<char>),
    IfDef(Vec<char>),
    IfNDef(Vec<char>),
    Else,
    EndIf,
    Malformed,
}

impl View for Directive {
    type V = LineKind;

    open spec fn view(&self) -> LineKind {
        match self {
            Directive::Text => LineKind::Text,
            Directive::Import(n) => LineKind::Import(n@),
            Directive::IfDef(n) => LineKind::IfDef(n@),
            Directive::IfNDef(n) => LineKind::IfNDef(n@),
            Directive::Else => LineKind::Else,
            Directive::EndIf => LineKind::EndIf,
            Directive::Malformed => LineKind::Malformed,
        }
    }
}

fn blank(c: char) -> (r: bool)
    ensures
        r == is_blank(c),
{
    c == ' ' || c == '\t' || c == '\r'
}

fn ident(c: char) -> (r: bool)
    ensures
        r == is_ident(c),
{
    ('a' <= c && c <= 'z') || ('A' <= c && c <= 'Z') || ('0' <= c && c <= '9') || c == '_'
}

fn skip_blank_from(line: &Vec<char>, i: usize) -> (r: usize)
    requires
        i <= line@.len(),
    ensures
        r as int == skip_blank(line@, i as int),
        i <= r <= line@.len(),
{
    let mut j = i;
    while j < line.len() && blank(line[j])
        invariant
            i <= j <= line@.len(),
            skip_blank(line@, i as int) == skip_blank(line@, j as int),
        decreases line@.len() - j,
    {
        j = j + 1;
    }
    j
}

fn ident_end_from(line: &Vec<char>, i: usize) -> (r: usize)
    requires
        i <= line@.len(),
    ensures
        r as int == ident_end(line@, i as int),
        i <= r <= line@.len(),
{
    let mut j = i;
    while j < line.len() && ident(line[j])
        invariant
            i <= j <= line@.len(),
            ident_end(line@, i as int) == ident_end(line@, j as int),
        decreases line@.len() - j,
    {
        j = j + 1;
    }
    j
}

/// Classifies one line of source (without its line break).
pub fn classify(line: &Vec<char>) -> (r: Directive)
    ensures
        r@ == line_kind(line@),
{
    let n = line.len();
    let a = skip_blank_from(line, 0);
    let b = if a < n && a + 1 < n && line[a] == '/' && line[a + 1] == '/' {
        skip_blank_from(line, a + 2)
    } else {
        a
    };
    if !(b < n && line[b] == '#') {
        return Directive::Text;
    }
    let p = b + 1;
    let w = ident_end_from(line, p);
    let a2 = skip_blank_from(line, w);
    let e = ident_end_from(line, a2);
    let named = e > a2 && skip_blank_from(line, e) == n;
    let bare = a2 == n;
    if span_is(line, p, w, "import") {
        if named { Directive::Import(copy_range(line, a2, e)) } else { Directive::Malformed }
    } else if span_is(line, p, w, "ifdef") {
        if named { Directive::IfDef(copy_range(line, a2, e)) } else { Directive::Malformed }
    } else if span_is(line, p, w, "ifndef") {
        if named { Directive::IfNDef(copy_range(line, a2, e)) } else { Directive::Malformed }
    } else if span_is(line, p, w, "else") {
        if bare { Directive::Else } else { Directive::Malformed }
    } else if span_is(line, p, w, "endif") {
        if bare { Directive::EndIf } else { Directive::Malformed }
    } else {
        Directive::Malformed
    }
}

} // verus!
