//! The first-run setup wizard: its steps, the key hints of each step, and
//! how pasted values are summarised on screen.

use vstd::prelude::*;
use vstd::string::*;
use vstd::utf8::*;

use crate::text::{all_white_space, is_blank, push_char, trim, trimmed};

verus! {

broadcast use vstd::utf8::encode_utf8_valid_utf8;

/// The steps of the setup wizard, in order.
#[derive(Clone, Copy, Debug, PartialEq, Eq, Structural)]
pub enum SetupStep {
    Handle,
    Language,
    Template,
    Cses,
}

/// The label of each step in the step indicator, with whether it is the
/// current step.
pub open spec fn step_items(current: SetupStep) -> Seq<(Seq<char>, bool)> {
    seq![
        ("1 Handle"@, current == SetupStep::Handle),
        ("2 Language"@, current == SetupStep::Language),
        ("3 Template"@, current == SetupStep::Template),
        ("4 CSES"@, current == SetupStep::Cses),
    ]
}

/// The step indicator: each step's label and whether it is the current one.
pub fn step_indicator(current: SetupStep) -> (r: Vec<(&'static str, bool)>)
    ensures
        r@.map_values(|p: (&'static str, bool)| (p.0@, p.1)) == step_items(current),
{
    let r = vec![
        ("1 Handle", current == SetupStep::Handle),
        ("2 Language", current == SetupStep::Language),
        ("3 Template", current == SetupStep::Template),
        ("4 CSES", current == SetupStep::Cses),
    ];
    assert(r@.map_values(|p: (&'static str, bool)| (p.0@, p.1)) =~= step_items(current));
    r
}

/// The key hints of a step: each key with what it does.
pub open spec fn hint_items(step: SetupStep) -> Seq<(Seq<char>, Seq<char>)> {
    match step {
        SetupStep::Handle => seq![("Enter"@, " continue   "@), ("Esc"@, " skip setup"@)],
        SetupStep::Language => seq![("←/→"@, " switch   "@), ("Enter"@, " continue   "@), ("Esc"@, " skip"@)],
        SetupStep::Template => seq![("Enter"@, " continue   "@), ("Backspace"@, " clear   "@), ("Esc"@, " skip"@)],
        SetupStep::Cses => seq![("o"@, " open login   "@), ("Enter"@, " finish   "@), ("Backspace"@, " clear"@)],
    }
}

/// The key hints shown under a step.
pub fn hints(step: SetupStep) -> (r: Vec<(&'static str, &'static str)>)
    ensures
        r@.map_values(|p: (&'static str, &'static str)| (p.0@, p.1@)) == hint_items(step),
{
    let r = match step {
        SetupStep::Handle => vec![("Enter", " continue   "), ("Esc", " skip setup")],
        SetupStep::Language => vec![("←/→", " switch   "), ("Enter", " continue   "), ("Esc", " skip")],
        SetupStep::Template => vec![("Enter", " continue   "), ("Backspace", " clear   "), ("Esc", " skip")],
        SetupStep::Cses => vec![("o", " open login   "), ("Enter", " finish   "), ("Backspace", " clear")],
    };
    assert(r@.map_values(|p: (&'static str, &'static str)| (p.0@, p.1@)) =~= hint_items(step));
    r
}

/// A secret shown masked: its trimmed text as one `•` per byte when it has
/// at most six bytes, else its first three bytes, `…`, and its last three.
pub open spec fn masked_text(s: Seq<char>) -> Seq<char> {
    let b = encode_utf8(trimmed(s));
    if b.len() <= 6 {
        Seq::new(b.len(), |i: int| '•')
    } else {
        decode_utf8(b.subrange(0, 3)) + seq!['…'] + decode_utf8(b.subrange(b.len() - 3, b.len() as int))
    }
}

/// The masked text can be cut after its first three and before its last
/// three bytes without splitting a character.
pub open spec fn maskable(s: Seq<char>) -> bool {
    let b = encode_utf8(trimmed(s));
    b.len() > 6 ==> is_char_boundary(b, 3) && is_char_boundary(b, b.len() - 3)
}

/// Whether `masked` can be asked to mask `s`.
pub fn can_mask(s: &str) -> (r: bool)
    ensures
        r == maskable(s@),
{
    let t = trim(s);
    let ts = t.as_str();
    let n = ts.as_bytes().len();
    if n <= 6 {
        true
    } else {
        ts.is_char_boundary(3) && ts.is_char_boundary(n - 3)
    }
}

/// Masks a pasted secret for display.
pub fn masked(s: &str) -> (r: String)
    requires
        maskable(s@),
    ensures
        r@ == masked_text(s@),
{
    let t = trim(s);
    let ts = t.as_str();
    let n = ts.as_bytes().len();
    if n <= 6 {
        let mut r = String::new();
        let mut i: usize = 0;
        while i < n
            invariant
                i <= n,
                r@ =~= Seq::new(i as nat, |k: int| '•'),
            decreases n - i,
        {
            push_char(&mut r, '•');
            i = i + 1;
        }
        r
    } else {
        let (head, _) = ts.split_at(3);
        let (_, tail) = ts.split_at(n - 3);
        proof {
            encode_utf8_decode_utf8(head@);
            encode_utf8_decode_utf8(tail@);
        }
        let mut r = String::from_str(head);
        push_char(&mut r, '…');
        r.append(tail);
        r
    }
}

/// Every character takes at least one byte in UTF-8.
proof fn lemma_encoding_not_shorter(chars: Seq<char>)
    ensures
        encode_utf8(chars).len() >= chars.len(),
    decreases chars.len(),
{
    if chars.len() > 0 {
        lemma_encoding_not_shorter(chars.drop_first());
    }
}

/// Valid UTF-8 bytes decode to at most as many characters.
proof fn lemma_decoding_not_longer(bytes: Seq<u8>)
    requires
        valid_utf8(bytes),
    ensures
        decode_utf8(bytes).len() <= bytes.len(),
{
    decode_utf8_encode_utf8(bytes);
    lemma_encoding_not_shorter(decode_utf8(bytes));
}

/// A masked secret never shows more than seven characters: bullets only,
/// one per byte, for a secret of at most six bytes; otherwise at most three
/// characters from each end around `…`.
pub proof fn masking_shows_at_most_seven_characters(s: Seq<char>)
    requires
        maskable(s),
    ensures
        masked_text(s).len() <= 7,
        encode_utf8(trimmed(s)).len() <= 6 ==> forall|i: int|
            0 <= i < masked_text(s).len() ==> #[trigger] masked_text(s)[i] == '•',
        encode_utf8(trimmed(s)).len() > 6 ==> masked_text(s).contains('…'),
{
    let b = encode_utf8(trimmed(s));
    if b.len() > 6 {
        valid_utf8_split(b, 3);
        valid_utf8_split(b, b.len() - 3);
        let head = b.subrange(0, 3);
        let tail = b.subrange(b.len() - 3, b.len() as int);
        lemma_decoding_not_longer(head);
        lemma_decoding_not_longer(tail);
        let m = decode_utf8(head) + seq!['…'] + decode_utf8(tail);
        assert(m[decode_utf8(head).len() as int] == '…');
    }
}

/// Whether a pasted session cookie is present.
pub fn is_connected(session: &str) -> (r: bool)
    ensures
        r == !all_white_space(session@),
{
    !is_blank(session)
}

// ---------------------------------------------------------------------------
// Pasted template summary
// ---------------------------------------------------------------------------

/// A line without the `\r` of a `\r\n` ending.
pub open spec fn without_cr(line: Seq<char>) -> Seq<char> {
    if line.len() > 0 && line.last() == '\r' {
        line.drop_last()
    } else {
        line
    }
}

/// Reading a text left to right: the lines already ended by `\n`, and the
/// line being read.
pub open spec fn line_scan(s: Seq<char>) -> (Seq<Seq<char>>, Seq<char>)
    decreases s.len(),
{
    if s.len() == 0 {
        (Seq::empty(), Seq::empty())
    } else {
        let (done, cur) = line_scan(s.drop_last());
        if s.last() == '\n' {
            (done.push(without_cr(cur)), Seq::empty())
        } else {
            (done, cur.push(s.last()))
        }
    }
}

/// The lines of a text (`str::lines`): ended by `\n` or `\r\n`, the last
/// one possibly without an ending, and no empty line after a final ending.
pub open spec fn lines_of(s: Seq<char>) -> Seq<Seq<char>> {
    let (done, cur) = line_scan(s);
    if cur.len() > 0 {
        done.push(cur)
    } else {
        done
    }
}

/// What the setup screen shows of a pasted template.
#[derive(Debug)]
pub struct TemplateSummary {
    /// How many lines it has.
    pub lines: usize,
    /// How many bytes it has once trimmed.
    pub chars: usize,
    /// Its first three lines.
    pub preview: Vec<String>,
}

fn strip_cr(line: &String) -> (r: String)
    ensures
        r@ == without_cr(line@),
{
    let n = line.as_str().unicode_len();
    if n > 0 && line.as_str().get_char(n - 1) == '\r' {
        String::from_str(line.as_str().substring_char(0, n - 1))
    } else {
        line.clone()
    }
}

/// The lines of a text.
pub fn lines(s: &str) -> (r: Vec<String>)
    ensures
        r@.map_values(|l: String| l@) == lines_of(s@),
{
    let n = s.unicode_len();
    let mut done: Vec<String> = Vec::new();
    let mut cur = String::new();
    let mut i: usize = 0;
    while i < n
        invariant
            n == s@.len(),
            i <= n,
            line_scan(s@.subrange(0, i as int)) == (done@.map_values(|l: String| l@), cur@),
        decreases n - i,
    {
        proof {
            assert(s@.subrange(0, i + 1).drop_last() =~= s@.subrange(0, i as int));
        }
        let c = s.get_char(i);
        if c == '\n' {
            let l = strip_cr(&cur);
            done.push(l);
            cur = String::new();
            assert(done@.map_values(|l: String| l@) =~= line_scan(s@.subrange(0, i + 1)).0);
        } else {
            push_char(&mut cur, c);
        }
        i = i + 1;
    }
    proof {
        assert(s@.subrange(0, n as int) =~= s@);
    }
    if cur.as_str().unicode_len() > 0 {
        done.push(cur);
        assert(done@.map_values(|l: String| l@) =~= lines_of(s@));
    }
    done
}

/// Summarises a pasted template: its line count, its trimmed size in bytes,
/// and its first three lines.
pub fn template_summary(template: &str) -> (r: TemplateSummary)
    ensures
        r.lines == lines_of(template@).len(),
        r.chars == encode_utf8(trimmed(template@)).len(),
        r.preview@.map_values(|l: String| l@) == (if lines_of(template@).len() > 3 {
            lines_of(template@).subrange(0, 3)
        } else {
            lines_of(template@)
        }),
{
    let all = lines(template);
    let t = trim(template);
    let chars = t.as_str().as_bytes().len();
    let mut preview: Vec<String> = Vec::new();
    let mut k: usize = 0;
    while k < all.len() && k < 3
        invariant
            k <= all@.len(),
            k <= 3,
            preview@.len() == k,
            forall|j: int| 0 <= j < k ==> #[trigger] preview@[j]@ == all@[j]@,
        decreases all.len() - k,
    {
        preview.push(all[k].clone());
        k = k + 1;
    }
    let ghost ls = lines_of(template@);
    assert(preview@.map_values(|l: String| l@) =~= (if ls.len() > 3 { ls.subrange(0, 3) } else { ls }));
    TemplateSummary { lines: all.len(), chars, preview }
}

} // verus!
