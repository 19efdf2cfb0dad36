//! The name of the file that a download is written to, taken from the URL.
//!
//! The name is the last segment of the URL's path. Segments are parted by
//! `/`; empty segments and `.` do not count, so `/a/b/` and `/a/b/.` both end
//! in `b`. A path that ends in `..`, or that has no segment that counts, has
//! no last segment, and the download goes to `index.html`.

use crate::text::text_of;
use vstd::prelude::*;

verus! {

/// The path of an absolute URL, as `Url::parse` and `Url::path` of the `url`
/// crate give it: `Some` of the path where the text parses as such a URL,
/// `None` where it does not.
pub uninterp spec fn url_path(url: Seq<char>) -> Option<Seq<char>>;

/// The name used where the path gives none.
pub open spec fn default_name() -> Seq<char> {
    "index.html"@
}

/// Where the part of `path` behind its last `/` begins: the length of `path`
/// if it ends in `/`, 0 if it holds none.
pub open spec fn tail_start(path: Seq<char>) -> int
    decreases path.len(),
{
    if path.len() == 0 || path.last() == '/' {
        path.len() as int
    } else {
        tail_start(path.drop_last())
    }
}

/// The part of `path` behind its last `/`; all of it if it holds none.
pub open spec fn tail(path: Seq<char>) -> Seq<char> {
    path.skip(tail_start(path))
}

/// The last segment of `path` that counts, if there is one.
pub open spec fn final_segment_of(path: Seq<char>) -> Option<Seq<char>>
    decreases path.len(),
    via final_segment_of_decreases
{
    let last = tail(path);
    if last == seq!['.', '.'] {
        None
    } else if last.len() > 0 && last != seq!['.'] {
        Some(last)
    } else if tail_start(path) <= 0 {
        None
    } else {
        final_segment_of(path.take(tail_start(path) - 1))
    }
}

#[via_fn]
proof fn final_segment_of_decreases(path: Seq<char>) {
    lemma_tail_start(path);
}

/// The file name for a URL with this path.
pub open spec fn name_for_path(path: Seq<char>) -> Seq<char> {
    match final_segment_of(path) {
        Some(segment) => segment,
        None => default_name(),
    }
}

/// Whether `text` can name a file in the directory it is written to: it is
/// not empty, holds no `/`, and is neither `.` nor `..`.
pub open spec fn is_plain_name(text: Seq<char>) -> bool {
    &&& text.len() > 0
    &&& forall|i: int| 0 <= i < text.len() ==> text[i] != '/'
    &&& text != seq!['.']
    &&& text != seq!['.', '.']
}

/// The tail begins inside the path, directly behind a `/` or at the very
/// start, and holds no `/`.
pub proof fn lemma_tail_start(path: Seq<char>)
    ensures
        0 <= tail_start(path) <= path.len(),
        tail_start(path) > 0 ==> path[tail_start(path) - 1] == '/',
        forall|i: int| tail_start(path) <= i < path.len() ==> path[i] != '/',
    decreases path.len(),
{
    if path.len() > 0 && path.last() != '/' {
        let front = path.drop_last();
        lemma_tail_start(front);
        assert forall|i: int| tail_start(path) <= i < path.len() implies path[i] != '/' by {
            if i < front.len() {
                assert(front[i] == path[i]);
            }
        }
    }
}

/// The place described by `lemma_tail_start` is the only one.
pub proof fn lemma_tail_start_is(path: Seq<char>, start: int)
    requires
        0 <= start <= path.len(),
        start > 0 ==> path[start - 1] == '/',
        forall|i: int| start <= i < path.len() ==> path[i] != '/',
    ensures
        tail_start(path) == start,
    decreases path.len(),
{
    if path.len() > 0 && path.last() != '/' {
        lemma_tail_start_is(path.drop_last(), start);
    }
}

/// A last segment, where there is one, can name a file in the directory it
/// is written to.
pub proof fn lemma_final_segment_is_plain(path: Seq<char>)
    ensures
        final_segment_of(path) matches Some(segment) ==> is_plain_name(segment),
    decreases path.len(),
{
    lemma_tail_start(path);
    let last = tail(path);
    if last == seq!['.', '.'] {
    } else if last.len() > 0 && last != seq!['.'] {
    } else if tail_start(path) <= 0 {
    } else {
        lemma_final_segment_is_plain(path.take(tail_start(path) - 1));
    }
}

/// Whatever the path, the file name can name a file in the directory it is
/// written to: a download never lands outside that directory.
pub proof fn lemma_name_is_plain(path: Seq<char>)
    ensures
        is_plain_name(name_for_path(path)),
{
    lemma_final_segment_is_plain(path);
    reveal_strlit("index.html");
    let name = default_name();
    assert(name.len() == 10);
    assert(name[0] == 'i');
}

/// An empty path and a path of slashes alone have no last segment.
pub proof fn lemma_no_segment_in_slashes(path: Seq<char>)
    requires
        forall|i: int| 0 <= i < path.len() ==> path[i] == '/',
    ensures
        final_segment_of(path) is None,
        name_for_path(path) == default_name(),
    decreases path.len(),
{
    if path.len() > 0 {
        assert(tail_start(path) == path.len());
        assert(tail(path).len() == 0);
        lemma_no_segment_in_slashes(path.take(path.len() - 1));
    } else {
        assert(tail(path).len() == 0);
    }
}

/// A path without a `/` is one segment: it is the last segment if it
/// counts, and there is none if it does not.
pub proof fn lemma_final_segment_alone(last: Seq<char>)
    requires
        forall|i: int| 0 <= i < last.len() ==> last[i] != '/',
    ensures
        final_segment_of(last) == if is_plain_name(last) {
            Some(last)
        } else {
            None
        },
{
    lemma_tail_start_is(last, 0);
    assert(tail(last) =~= last);
}

/// What one more segment does to a path. Behind `path` and a `/`, a segment
/// that counts becomes the last segment; `..` leaves none; an empty segment
/// or `.` changes nothing.
pub proof fn lemma_final_segment_behind(path: Seq<char>, last: Seq<char>)
    requires
        forall|i: int| 0 <= i < last.len() ==> last[i] != '/',
    ensures
        final_segment_of(path + seq!['/'] + last) == if is_plain_name(last) {
            Some(last)
        } else if last == seq!['.', '.'] {
            None
        } else {
            final_segment_of(path)
        },
{
    let whole = path + seq!['/'] + last;
    lemma_tail_start_is(whole, path.len() as int + 1);
    assert(tail(whole) =~= last);
    assert(whole.take(path.len() as int) =~= path);
}

/// The characters of a string slice, in order.
fn chars_of(text: &str) -> (chars: Vec<char>)
    ensures
        chars@ == text@,
{
    let mut chars: Vec<char> = Vec::new();
    for c in it: text.chars()
        invariant
            chars@ == it.seq().take(it.index()),
            it.seq() == text@,
    {
        chars.push(c);
    }
    chars
}

/// The last segment of `path` that counts, if there is one.
pub fn final_segment(path: &str) -> (segment: Option<String>)
    ensures
        text_of(segment) == final_segment_of(path@),
{
    let chars = chars_of(path);
    let mut end: usize = chars.len();
    proof {
        assert(path@.take(end as int) =~= path@);
    }
    loop
        invariant
            chars@ == path@,
            end <= chars.len(),
            final_segment_of(path@) == final_segment_of(path@.take(end as int)),
        decreases end,
    {
        let ghost head = path@.take(end as int);
        let mut start: usize = end;
        while start > 0 && chars[start - 1] != '/'
            invariant
                chars@ == path@,
                start <= end <= chars.len(),
                forall|i: int| start <= i < end ==> path@[i] != '/',
            decreases start,
        {
            start -= 1;
        }
        proof {
            lemma_tail_start_is(head, start as int);
            assert(tail(head) =~= path@.subrange(start as int, end as int));
        }
        let len: usize = end - start;
        let is_dot = len == 1 && chars[start] == '.';
        let is_dot_dot = len == 2 && chars[start] == '.' && chars[start + 1] == '.';
        proof {
            assert(tail(head).len() == len);
            assert(is_dot == (tail(head) == seq!['.'])) by {
                if is_dot {
                    assert(tail(head) =~= seq!['.']);
                }
                if tail(head) == seq!['.'] {
                    assert(seq!['.'].len() == 1);
                    assert(tail(head)[0] == chars[start as int]);
                }
            }
            assert(is_dot_dot == (tail(head) == seq!['.', '.'])) by {
                if is_dot_dot {
                    assert(tail(head) =~= seq!['.', '.']);
                }
                if tail(head) == seq!['.', '.'] {
                    assert(seq!['.', '.'].len() == 2);
                    assert(tail(head)[0] == chars[start as int]);
                    assert(tail(head)[1] == chars[start + 1]);
                }
            }
        }
        if is_dot_dot {
            return None;
        }
        if len > 0 && !is_dot {
            let segment = path.substring_char(start, end).to_owned();
            return Some(segment);
        }
        if start == 0 {
            return None;
        }
        proof {
            assert(head.take(start - 1) =~= path@.take(start - 1));
        }
        end = start - 1;
    }
}

/// The file name for a URL with this path: its last segment, or
/// `index.html` where it has none.
pub fn file_name_from_path(path: &str) -> (name: String)
    ensures
        name@ == name_for_path(path@),
{
    match final_segment(path) {
        Some(segment) => segment,
        None => "index.html".to_owned(),
    }
}

/// Parses `url` with `reqwest::Url::parse`, which is `Url::parse` of the
/// `url` crate, and, where that succeeds, copies out what `Url::path`
/// returns.
///
/// Trusted, not proved: the result is `url_path` of the text, which is the
/// name this library gives to exactly that outcome; `None` stands for every
/// parse error.
#[verifier::external_body]
pub(crate) fn parse_url_path(url: &str) -> (path: Option<String>)
    ensures
        text_of(path) == url_path(url@),
{
    match reqwest::Url::parse(url) {
        Ok(parsed) => Some(parsed.path().to_owned()),
        Err(_) => None,
    }
}

} // verus!
