//! The banner shown on the error stream before a `get`.
use vstd::prelude::*;

use crate::text::chars_of;

verus! {

/// Inner width of the banner.
pub const PROMPT_WIDTH: usize = 55;

/// The second line of text in the banner.
pub const TAGLINE: &'static str = "A simple git credentials helper for GitHub";

/// `n` copies of `c`.
pub open spec fn repeat(c: char, n: nat) -> Seq<char> {
    Seq::new(n, |_i: int| c)
}

/// `text` centred in `width` columns: the padding is split in two, the
/// larger half on the right; text as wide or wider stays as it is.
pub open spec fn centered(text: Seq<char>, width: nat) -> Seq<char> {
    if text.len() >= width {
        text
    } else {
        let pad = (width - text.len()) as nat;
        repeat(' ', pad / 2) + text + repeat(' ', (pad - pad / 2) as nat)
    }
}

/// A banner line around `inner`.
pub open spec fn framed(inner: Seq<char>) -> Seq<char> {
    seq!['*'] + inner + seq!['*']
}

fn push_repeat(out: &mut String, c: char, n: usize)
    ensures
        final(out)@ == old(out)@ + repeat(c, n as nat),
{
    let mut i: usize = 0;
    while i < n
        invariant
            i <= n,
            out@ == old(out)@ + repeat(c, i as nat),
        decreases n - i,
    {
        out.push(c);
        assert(repeat(c, (i + 1) as nat) == repeat(c, i as nat).push(c));
        i = i + 1;
    }
}

/// The top and bottom line of the banner.
pub fn prompt_border() -> (r: String)
    ensures
        r@ == framed(repeat('*', PROMPT_WIDTH as nat)),
{
    let mut r = String::new();
    r.push('*');
    push_repeat(&mut r, '*', PROMPT_WIDTH);
    r.push('*');
    assert(r@ =~= framed(repeat('*', PROMPT_WIDTH as nat)));
    r
}

/// A banner line with `text` centred in it.
pub fn prompt_text(text: &str) -> (r: String)
    ensures
        r@ == framed(centered(text@, PROMPT_WIDTH as nat)),
{
    let n = chars_of(text).len();
    let mut r = String::new();
    r.push('*');
    if n >= PROMPT_WIDTH {
        r.append(text);
    } else {
        let pad = PROMPT_WIDTH - n;
        push_repeat(&mut r, ' ', pad / 2);
        r.append(text);
        push_repeat(&mut r, ' ', pad - pad / 2);
    }
    r.push('*');
    assert(r@ =~= framed(centered(text@, PROMPT_WIDTH as nat)));
    r
}

/// The banner: a border, the title, the tagline, a border.
pub fn prompt_lines(title: &str) -> (r: Vec<String>)
    ensures
        r@.len() == 4,
        r@[0]@ == framed(repeat('*', PROMPT_WIDTH as nat)),
        r@[1]@ == framed(centered(title@, PROMPT_WIDTH as nat)),
        r@[2]@ == framed(centered(TAGLINE@, PROMPT_WIDTH as nat)),
        r@[3]@ == framed(repeat('*', PROMPT_WIDTH as nat)),
{
    let mut r: Vec<String> = Vec::new();
    r.push(prompt_border());
    r.push(prompt_text(title));
    r.push(prompt_text(TAGLINE));
    r.push(prompt_border());
    r
}

} // verus!
