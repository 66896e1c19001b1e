//! Character sequences: searching, replacing, trimming, splitting and joining.
//!
//! Every function here works on the characters of a text, never on its bytes,
//! and states its result over `Seq<char>`.

use vstd::prelude::*;

verus! {

/// `pat` stands in `s` at position `i`.
pub open spec fn occurs_at(s: Seq<char>, pat: Seq<char>, i: int) -> bool {
    &&& 0 <= i
    &&& i + pat.len() <= s.len()
    &&& forall|k: int| 0 <= k < pat.len() ==> s[i + k] == #[trigger] pat[k]
}

/// `pat` stands somewhere in `s`.
pub open spec fn contains(s: Seq<char>, pat: Seq<char>) -> bool {
    exists|i: int| occurs_at(s, pat, i)
}

pub open spec fn starts_with(s: Seq<char>, pat: Seq<char>) -> bool {
    occurs_at(s, pat, 0)
}

pub open spec fn ends_with(s: Seq<char>, pat: Seq<char>) -> bool {
    occurs_at(s, pat, s.len() - pat.len())
}

/// `s` from position `i` on, with every occurrence of `pat` replaced by `rep`.
/// Occurrences are taken from the left and do not overlap. An empty pattern
/// replaces nothing.
pub open spec fn replaced_from(s: Seq<char>, pat: Seq<char>, rep: Seq<char>, i: int) -> Seq<char>
    decreases s.len() - i,
{
    if i < 0 || i >= s.len() {
        Seq::empty()
    } else if pat.len() > 0 && occurs_at(s, pat, i) {
        rep + replaced_from(s, pat, rep, i + pat.len())
    } else {
        seq![s[i]] + replaced_from(s, pat, rep, i + 1)
    }
}

pub open spec fn replaced(s: Seq<char>, pat: Seq<char>, rep: Seq<char>) -> Seq<char> {
    replaced_from(s, pat, rep, 0)
}

pub open spec fn removed(s: Seq<char>, pat: Seq<char>) -> Seq<char> {
    replaced(s, pat, Seq::empty())
}

/// The characters with the Unicode property `White_Space`.
pub open spec fn is_space(c: char) -> bool {
    let n = c as u32;
    ||| 0x09 <= n <= 0x0D
    ||| n == 0x20
    ||| n == 0x85
    ||| n == 0xA0
    ||| n == 0x1680
    ||| 0x2000 <= n <= 0x200A
    ||| n == 0x2028
    ||| n == 0x2029
    ||| n == 0x202F
    ||| n == 0x205F
    ||| n == 0x3000
}

pub open spec fn trim_start(s: Seq<char>) -> Seq<char>
    decreases s.len(),
{
    if s.len() > 0 && is_space(s.first()) {
        trim_start(s.drop_first())
    } else {
        s
    }
}

pub open spec fn trim_end(s: Seq<char>) -> Seq<char>
    decreases s.len(),
{
    if s.len() > 0 && is_space(s.last()) {
        trim_end(s.drop_last())
    } else {
        s
    }
}

/// `s` without the white space at its two ends.
pub open spec fn trimmed(s: Seq<char>) -> Seq<char> {
    trim_end(trim_start(s))
}

/// The first `n` characters of `s`, all of it where it is shorter.
pub open spec fn clipped(s: Seq<char>, n: nat) -> Seq<char> {
    if s.len() <= n {
        s
    } else {
        s.take(n as int)
    }
}

pub open spec fn is_ascii_digit(c: char) -> bool {
    '0' <= c <= '9'
}

pub open spec fn is_ascii_letter(c: char) -> bool {
    ('a' <= c <= 'z') || ('A' <= c <= 'Z')
}

/// The views of a list of texts.
pub open spec fn views(v: Seq<String>) -> Seq<Seq<char>> {
    Seq::new(v.len(), |i: int| v[i]@)
}

/// The views of a list of borrowed texts.
pub open spec fn str_views(v: Seq<&'static str>) -> Seq<Seq<char>> {
    Seq::new(v.len(), |i: int| v[i]@)
}

/// The view of a text that may be absent.
pub open spec fn opt_view(t: Option<String>) -> Option<Seq<char>> {
    match t {
        Some(s) => Some(s@),
        None => None,
    }
}

/// The views of a list of character vectors.
pub open spec fn vec_views(v: Seq<Vec<char>>) -> Seq<Seq<char>> {
    Seq::new(v.len(), |i: int| v[i]@)
}

/// The pieces of `s` between the characters that `is_sep` accepts. There is
/// always one piece more than there are separators; a piece may be empty.
pub open spec fn split_by(s: Seq<char>, is_sep: spec_fn(char) -> bool) -> Seq<Seq<char>>
    decreases s.len(),
{
    if s.len() == 0 {
        seq![Seq::empty()]
    } else {
        let front = split_by(s.drop_last(), is_sep);
        if is_sep(s.last()) {
            front.push(Seq::empty())
        } else {
            front.drop_last().push(front.last().push(s.last()))
        }
    }
}

/// The test that accepts the character `sep` alone.
pub open spec fn only(sep: char) -> spec_fn(char) -> bool {
    |c: char| c == sep
}

/// The test that accepts white space.
pub open spec fn any_space() -> spec_fn(char) -> bool {
    |c: char| is_space(c)
}

/// The texts of `list` that are not empty, in order.
pub open spec fn nonempty(list: Seq<Seq<char>>) -> Seq<Seq<char>>
    decreases list.len(),
{
    if list.len() == 0 {
        Seq::empty()
    } else if list.last().len() == 0 {
        nonempty(list.drop_last())
    } else {
        nonempty(list.drop_last()).push(list.last())
    }
}

/// The pieces of `s` between occurrences of `sep` that are not empty.
pub open spec fn segments(s: Seq<char>, sep: char) -> Seq<Seq<char>> {
    nonempty(split_by(s, only(sep)))
}

/// The words of `s`: its pieces between white space that are not empty.
pub open spec fn words(s: Seq<char>) -> Seq<Seq<char>> {
    nonempty(split_by(s, any_space()))
}

/// The texts of `parts` with `sep` between each two of them.
pub open spec fn joined(parts: Seq<Seq<char>>, sep: Seq<char>) -> Seq<char>
    decreases parts.len(),
{
    if parts.len() == 0 {
        Seq::empty()
    } else if parts.len() == 1 {
        parts[0]
    } else {
        joined(parts.drop_last(), sep) + sep + parts.last()
    }
}

/// `s` with every run of white space turned into one blank and none left at
/// its ends.
pub open spec fn collapsed(s: Seq<char>) -> Seq<char> {
    joined(words(s), seq![' '])
}

/// The texts of `list` one after the other.
pub open spec fn concat(list: Seq<Seq<char>>) -> Seq<char>
    decreases list.len(),
{
    if list.len() == 0 {
        Seq::empty()
    } else {
        concat(list.drop_last()) + list.last()
    }
}

/// What `str::to_lowercase` makes of a text.
pub uninterp spec fn lowercased(s: Seq<char>) -> Seq<char>;

/// Every text of `list` is not empty and holds no `sep`.
pub open spec fn plain_pieces(list: Seq<Seq<char>>, sep: char) -> bool {
    forall|i: int| 0 <= i < list.len() ==> (#[trigger] list[i]).len() > 0 && !list[i].contains(sep)
}

/// No piece of a split holds the separator.
pub proof fn lemma_split_pieces_hold_no_sep(s: Seq<char>, sep: char)
    ensures
        split_by(s, only(sep)).len() > 0,
        forall|i: int|
            0 <= i < split_by(s, only(sep)).len() ==> !(#[trigger] split_by(
                s,
                only(sep),
            )[i]).contains(sep),
    decreases s.len(),
{
    if s.len() > 0 {
        let front = split_by(s.drop_last(), only(sep));
        let all = split_by(s, only(sep));
        lemma_split_pieces_hold_no_sep(s.drop_last(), sep);
        assert forall|i: int| 0 <= i < all.len() implies !(#[trigger] all[i]).contains(sep) by {
            if i < front.len() - 1 {
                assert(all[i] == front[i]);
            } else if s.last() == sep {
                if i == front.len() - 1 {
                    assert(all[i] == front[i]);
                }
            } else {
                let piece = front.last().push(s.last());
                assert(all[i] == piece);
                if piece.contains(sep) {
                    let k = choose|k: int| 0 <= k < piece.len() && piece[k] == sep;
                    assert(front[front.len() - 1][k] == sep);
                    assert(front[front.len() - 1].contains(sep));
                }
            }
        }
    }
}

/// The texts that [`nonempty`] keeps are not empty, and each is one of `list`.
pub proof fn lemma_nonempty_keeps(list: Seq<Seq<char>>)
    ensures
        forall|i: int|
            0 <= i < nonempty(list).len() ==> (#[trigger] nonempty(list)[i]).len() > 0
                && list.contains(nonempty(list)[i]),
    decreases list.len(),
{
    if list.len() > 0 {
        let front = list.drop_last();
        lemma_nonempty_keeps(front);
        let out = nonempty(list);
        assert forall|i: int| 0 <= i < out.len() implies (#[trigger] out[i]).len() > 0
            && list.contains(out[i]) by {
            if i < nonempty(front).len() {
                assert(out[i] == nonempty(front)[i]);
                let k = choose|k: int| 0 <= k < front.len() && front[k] == out[i];
                assert(list[k] == out[i]);
            } else {
                assert(list[list.len() - 1] == out[i]);
            }
        }
    }
}

/// A list without empty texts is kept whole, also behind empty pieces.
pub proof fn lemma_nonempty_of_plain(head: Seq<Seq<char>>, list: Seq<Seq<char>>)
    requires
        nonempty(head).len() == 0,
        forall|i: int| 0 <= i < list.len() ==> (#[trigger] list[i]).len() > 0,
    ensures
        nonempty(head + list) == list,
    decreases list.len(),
{
    if list.len() == 0 {
        assert(head + list == head);
    } else {
        let front = list.drop_last();
        assert forall|i: int| 0 <= i < front.len() implies (#[trigger] front[i]).len() > 0 by {
            assert(front[i] == list[i]);
        }
        lemma_nonempty_of_plain(head, front);
        assert((head + list).drop_last() == head + front);
        assert((head + list).last() == list[list.len() - 1]);
        assert(front.push(list.last()) == list);
    }
}

/// Splitting what follows a text without separators only lengthens the last piece.
pub proof fn lemma_split_append_plain(s: Seq<char>, t: Seq<char>, sep: char)
    requires
        !t.contains(sep),
    ensures
        split_by(s + t, only(sep)) == split_by(s, only(sep)).drop_last().push(
            split_by(s, only(sep)).last() + t,
        ),
    decreases t.len(),
{
    lemma_split_pieces_hold_no_sep(s, sep);
    let pieces = split_by(s, only(sep));
    if t.len() == 0 {
        assert(s + t == s);
        assert(pieces.last() + t == pieces.last());
        assert(pieces.drop_last().push(pieces.last()) == pieces);
    } else {
        let front = t.drop_last();
        assert(!front.contains(sep)) by {
            if front.contains(sep) {
                let k = choose|k: int| 0 <= k < front.len() && front[k] == sep;
                assert(t[k] == sep);
            }
        }
        lemma_split_append_plain(s, front, sep);
        assert((s + t).drop_last() == s + front);
        assert((s + t).last() == t.last());
        assert(t.last() != sep) by {
            assert(t[t.len() - 1] == t.last());
        }
        let before = split_by(s + front, only(sep));
        assert(before.drop_last() == pieces.drop_last());
        assert(before.last().push(t.last()) == pieces.last() + t);
    }
}

/// A separator alone splits into two empty pieces, of which none is kept.
proof fn lemma_split_of_separator(sep: char)
    ensures
        split_by(seq![sep], only(sep)) == seq![Seq::<char>::empty(), Seq::<char>::empty()],
        nonempty(seq![Seq::<char>::empty()]).len() == 0,
        nonempty(seq![Seq::<char>::empty(), Seq::<char>::empty()]).len() == 0,
{
    let none = Seq::<char>::empty();
    let lead = seq![sep];
    let one = seq![none];
    let two = seq![none, none];
    assert(lead.drop_last() == none);
    assert(split_by(none, only(sep)) == one);
    assert(only(sep)(lead.last()));
    assert(one.push(none) == two);
    assert(split_by(lead, only(sep)) == two);
    assert(one.len() == 1 && one.last() == none);
    assert(one.drop_last() == Seq::<Seq<char>>::empty());
    assert(nonempty(one.drop_last()).len() == 0);
    assert(nonempty(one) == nonempty(one.drop_last()));
    assert(two.len() == 2 && two.last() == none);
    assert(two.drop_last() == one);
    assert(nonempty(two) == nonempty(two.drop_last()));
}

/// Splitting a joined list of plain pieces that stands behind a separator
/// gives the pieces back.
pub proof fn lemma_segments_of_joined(list: Seq<Seq<char>>, sep: char)
    requires
        plain_pieces(list, sep),
    ensures
        segments(seq![sep] + joined(list, seq![sep]), sep) == list,
{
    let none = Seq::<char>::empty();
    let lead = seq![sep];
    lemma_split_of_separator(sep);
    if list.len() == 0 {
        assert(lead + joined(list, lead) == lead);
    } else {
        lemma_split_of_joined(list, sep, list.len() as int);
        assert(list.take(list.len() as int) == list);
        lemma_nonempty_of_plain(seq![none], list);
    }
}

proof fn lemma_split_of_joined(list: Seq<Seq<char>>, sep: char, n: int)
    requires
        plain_pieces(list, sep),
        1 <= n <= list.len(),
    ensures
        split_by(seq![sep] + joined(list.take(n), seq![sep]), only(sep)) == seq![
            Seq::<char>::empty(),
        ] + list.take(n),
    decreases n,
{
    let none = Seq::<char>::empty();
    let lead = seq![sep];
    let now = list.take(n);
    assert(now.last() == list[n - 1]);
    lemma_split_of_separator(sep);
    if n == 1 {
        assert(joined(now, lead) == list[0]);
        lemma_split_append_plain(lead, list[0], sep);
        assert(seq![none, none].drop_last().push(none + list[0]) == seq![none] + now);
    } else {
        let front = list.take(n - 1);
        lemma_split_of_joined(list, sep, n - 1);
        assert(now.drop_last() == front);
        let base = lead + joined(front, lead);
        assert(lead + joined(now, lead) == (base + lead) + list[n - 1]);
        assert((base + lead).drop_last() == base);
        let pieces = split_by(base + lead, only(sep));
        assert(pieces == (seq![none] + front).push(none));
        lemma_split_append_plain(base + lead, list[n - 1], sep);
        assert(pieces.drop_last().push(pieces.last() + list[n - 1]) == seq![none] + now);
    }
}

/// The texts of `list` without the empty ones and without repeats: of equal
/// texts the first stays, and the order is kept.
pub open spec fn distinct_nonempty(list: Seq<Seq<char>>) -> Seq<Seq<char>>
    decreases list.len(),
{
    if list.len() == 0 {
        Seq::empty()
    } else {
        let front = distinct_nonempty(list.drop_last());
        if list.last().len() == 0 || front.contains(list.last()) {
            front
        } else {
            front.push(list.last())
        }
    }
}

/// No text stands twice in `list`.
pub open spec fn no_repeats(list: Seq<Seq<char>>) -> bool {
    forall|i: int, j: int| 0 <= i < j < list.len() ==> list[i] != list[j]
}

/// No text of `list` is empty.
pub open spec fn no_empties(list: Seq<Seq<char>>) -> bool {
    forall|i: int| 0 <= i < list.len() ==> (#[trigger] list[i]).len() > 0
}

/// What [`distinct_nonempty`] returns holds no text twice and no empty text,
/// and holds exactly the texts of `list` that are not empty.
pub proof fn lemma_distinct_nonempty(list: Seq<Seq<char>>)
    ensures
        no_repeats(distinct_nonempty(list)),
        no_empties(distinct_nonempty(list)),
        forall|t: Seq<char>|
            #[trigger] distinct_nonempty(list).contains(t) <==> (list.contains(t) && t.len() > 0),
        distinct_nonempty(list).len() <= list.len(),
    decreases list.len(),
{
    let out = distinct_nonempty(list);
    if list.len() > 0 {
        let front = distinct_nonempty(list.drop_last());
        lemma_distinct_nonempty(list.drop_last());
        assert forall|t: Seq<char>| #[trigger]
            out.contains(t) <==> (list.contains(t) && t.len() > 0) by {
            assert(front.contains(t) <==> (list.drop_last().contains(t) && t.len() > 0));
            if out.contains(t) {
                let k = choose|k: int| 0 <= k < out.len() && out[k] == t;
                if k < front.len() {
                    assert(front[k] == t);
                    assert(front.contains(t));
                    let m = choose|m: int|
                        0 <= m < list.drop_last().len() && list.drop_last()[m] == t;
                    assert(list[m] == t);
                } else {
                    assert(list[list.len() - 1] == t);
                }
            }
            if list.contains(t) && t.len() > 0 {
                let k = choose|k: int| 0 <= k < list.len() && list[k] == t;
                if k < list.len() - 1 {
                    assert(list.drop_last()[k] == t);
                    assert(list.drop_last().contains(t));
                    let m = choose|m: int| 0 <= m < front.len() && front[m] == t;
                    assert(out[m] == t);
                } else if front.contains(t) {
                    let m = choose|m: int| 0 <= m < front.len() && front[m] == t;
                    assert(out[m] == t);
                } else {
                    assert(out[out.len() - 1] == t);
                }
            }
        }
        assert forall|i: int, j: int| 0 <= i < j < out.len() implies out[i] != out[j] by {
            if j == front.len() {
                assert(front[i] == out[i]);
                assert(front.contains(out[i]));
            } else {
                assert(front[i] == out[i] && front[j] == out[j]);
            }
        }
    }
}

/// Cleaning a list that is already clean changes nothing.
pub proof fn lemma_distinct_nonempty_settles(list: Seq<Seq<char>>)
    requires
        no_repeats(list),
        no_empties(list),
    ensures
        distinct_nonempty(list) == list,
    decreases list.len(),
{
    if list.len() > 0 {
        let front = list.drop_last();
        assert(no_repeats(front)) by {
            assert forall|i: int, j: int| 0 <= i < j < front.len() implies front[i] != front[j] by {
                assert(front[i] == list[i] && front[j] == list[j]);
            }
        }
        assert(no_empties(front)) by {
            assert forall|i: int| 0 <= i < front.len() implies (#[trigger] front[i]).len() > 0 by {
                assert(front[i] == list[i]);
            }
        }
        lemma_distinct_nonempty_settles(front);
        assert(list[list.len() - 1].len() > 0);
        if front.contains(list.last()) {
            let k = choose|k: int| 0 <= k < front.len() && front[k] == list.last();
            assert(list[k] == list[list.len() - 1]);
        }
        assert(front.push(list.last()) == list);
    }
}

/// Where `pat` stands nowhere from `i` on, nothing is replaced from there.
pub proof fn lemma_nothing_to_replace(s: Seq<char>, pat: Seq<char>, rep: Seq<char>, i: int)
    requires
        0 <= i <= s.len(),
        forall|j: int| i <= j < s.len() ==> !occurs_at(s, pat, j),
    ensures
        replaced_from(s, pat, rep, i) == s.skip(i),
    decreases s.len() - i,
{
    if i < s.len() {
        lemma_nothing_to_replace(s, pat, rep, i + 1);
        assert(s.skip(i) == seq![s[i]] + s.skip(i + 1));
    } else {
        assert(s.skip(i) == Seq::<char>::empty());
    }
}

/// A pattern whose first character `s` lacks from `from` on stands nowhere there.
pub proof fn lemma_first_char_absent(s: Seq<char>, pat: Seq<char>, from: int)
    requires
        pat.len() > 0,
        forall|k: int| from <= k < s.len() ==> s[k] != pat[0],
    ensures
        forall|j: int| from <= j ==> !occurs_at(s, pat, j),
{
    assert forall|j: int| from <= j implies !occurs_at(s, pat, j) by {
        if occurs_at(s, pat, j) {
            assert(s[j + 0] == pat[0]);
        }
    }
}

/// Appends one character, as `String::push` does.
#[verifier::external_body]
fn push_char(s: &mut String, c: char)
    ensures
        final(s)@ == old(s)@.push(c),
{
    s.push(c)
}

/// `str::to_lowercase`: the lowercase form of a text by the rules of
/// Unicode, which is named and not described.
#[verifier::external_body]
pub(crate) fn lowercase(s: &str) -> (out: String)
    ensures
        out@ == lowercased(s@),
{
    s.to_lowercase()
}

/// The characters of a text.
pub fn chars_of(s: &str) -> (out: Vec<char>)
    ensures
        out@ == s@,
{
    let mut out: Vec<char> = Vec::new();
    for c in it: s.chars()
        invariant
            it.seq() == s@,
            out@ == it.seq().take(it.index() as int),
    {
        out.push(c);
    }
    assert(s@.take(s@.len() as int) == s@);
    out
}

/// The text made of the characters `v`.
pub fn text_of(v: &Vec<char>) -> (out: String)
    ensures
        out@ == v@,
{
    let mut out = String::new();
    let mut i: usize = 0;
    while i < v.len()
        invariant
            i <= v.len(),
            out@ == v@.take(i as int),
        decreases v.len() - i,
    {
        push_char(&mut out, v[i]);
        assert(v@.take(i + 1) == v@.take(i as int).push(v@[i as int]));
        i += 1;
    }
    assert(v@.take(v.len() as int) == v@);
    out
}

pub fn chars_eq(a: &Vec<char>, b: &Vec<char>) -> (r: bool)
    ensures
        r == (a@ == b@),
{
    if a.len() != b.len() {
        return false;
    }
    let mut i: usize = 0;
    while i < a.len()
        invariant
            i <= a.len(),
            a.len() == b.len(),
            forall|k: int| 0 <= k < i ==> a@[k] == b@[k],
        decreases a.len() - i,
    {
        if a[i] != b[i] {
            return false;
        }
        i += 1;
    }
    assert(a@ =~= b@);
    true
}

/// Whether two texts hold the same characters.
pub fn text_eq(a: &str, b: &str) -> (r: bool)
    ensures
        r == (a@ == b@),
{
    let x = chars_of(a);
    let y = chars_of(b);
    chars_eq(&x, &y)
}

/// Whether `list` holds the text `t`.
pub fn list_has(list: &Vec<String>, t: &str) -> (r: bool)
    ensures
        r == views(list@).contains(t@),
{
    let mut i: usize = 0;
    while i < list.len()
        invariant
            i <= list.len(),
            forall|k: int| 0 <= k < i ==> views(list@)[k] != t@,
        decreases list.len() - i,
    {
        if text_eq(list[i].as_str(), t) {
            assert(views(list@)[i as int] == t@);
            return true;
        }
        i += 1;
    }
    false
}

/// Adds `t` to a clean list unless it is empty or already there.
pub(crate) fn push_distinct(list: &mut Vec<String>, t: String, Ghost(seen): Ghost<Seq<Seq<char>>>)
    requires
        views(old(list)@) == distinct_nonempty(seen),
    ensures
        views(final(list)@) == distinct_nonempty(seen.push(t@)),
{
    assert(seen.push(t@).drop_last() == seen);
    if t.as_str().unicode_len() != 0 && !list_has(list, t.as_str()) {
        let ghost before = views(list@);
        list.push(t);
        assert(views(list@) =~= before.push(t@));
    }
}

pub fn matches_at(s: &Vec<char>, i: usize, pat: &Vec<char>) -> (r: bool)
    ensures
        r == occurs_at(s@, pat@, i as int),
{
    if pat.len() > s.len() || i > s.len() - pat.len() {
        return false;
    }
    let mut k: usize = 0;
    while k < pat.len()
        invariant
            k <= pat.len(),
            i + pat.len() <= s.len(),
            forall|j: int| 0 <= j < k ==> s@[i + j] == #[trigger] pat@[j],
        decreases pat.len() - k,
    {
        if s[i + k] != pat[k] {
            return false;
        }
        k += 1;
    }
    true
}

pub fn has(s: &Vec<char>, pat: &Vec<char>) -> (r: bool)
    ensures
        r == contains(s@, pat@),
{
    if pat.len() > s.len() {
        return false;
    }
    let last: usize = s.len() - pat.len();
    let mut i: usize = 0;
    while i <= last
        invariant
            i <= last + 1,
            last == s.len() - pat.len(),
            forall|j: int| 0 <= j < i ==> !occurs_at(s@, pat@, j),
        decreases last + 1 - i,
    {
        if matches_at(s, i, pat) {
            return true;
        }
        i += 1;
    }
    false
}

pub fn has_char(s: &Vec<char>, c: char) -> (r: bool)
    ensures
        r == s@.contains(c),
{
    let mut i: usize = 0;
    while i < s.len()
        invariant
            i <= s.len(),
            forall|j: int| 0 <= j < i ==> s@[j] != c,
        decreases s.len() - i,
    {
        if s[i] == c {
            return true;
        }
        i += 1;
    }
    false
}

pub fn begins_with(s: &Vec<char>, pat: &Vec<char>) -> (r: bool)
    ensures
        r == starts_with(s@, pat@),
{
    matches_at(s, 0, pat)
}

pub fn finishes_with(s: &Vec<char>, pat: &Vec<char>) -> (r: bool)
    ensures
        r == ends_with(s@, pat@),
{
    if pat.len() > s.len() {
        return false;
    }
    matches_at(s, s.len() - pat.len(), pat)
}

pub fn replace_all(s: &Vec<char>, pat: &Vec<char>, rep: &Vec<char>) -> (out: Vec<char>)
    ensures
        out@ == replaced(s@, pat@, rep@),
{
    let mut out: Vec<char> = Vec::new();
    let mut i: usize = 0;
    while i < s.len()
        invariant
            i <= s.len(),
            out@ + replaced_from(s@, pat@, rep@, i as int) == replaced(s@, pat@, rep@),
        decreases s.len() - i,
    {
        let ghost before = out@;
        if pat.len() > 0 && matches_at(s, i, pat) {
            let mut k: usize = 0;
            while k < rep.len()
                invariant
                    k <= rep.len(),
                    out@ == before + rep@.take(k as int),
                decreases rep.len() - k,
            {
                out.push(rep[k]);
                assert(rep@.take(k + 1) == rep@.take(k as int).push(rep@[k as int]));
                k += 1;
            }
            assert(rep@.take(rep.len() as int) == rep@);
            assert(out@ + replaced_from(s@, pat@, rep@, i + pat.len()) == before + replaced_from(
                s@,
                pat@,
                rep@,
                i as int,
            ));
            i += pat.len();
        } else {
            out.push(s[i]);
            assert(out@ + replaced_from(s@, pat@, rep@, i + 1) == before + replaced_from(
                s@,
                pat@,
                rep@,
                i as int,
            ));
            i += 1;
        }
    }
    assert(out@ + Seq::<char>::empty() == out@);
    out
}

pub fn remove_all(s: &Vec<char>, pat: &Vec<char>) -> (out: Vec<char>)
    ensures
        out@ == removed(s@, pat@),
{
    let none: Vec<char> = Vec::new();
    replace_all(s, pat, &none)
}

pub fn space(c: char) -> (r: bool)
    ensures
        r == is_space(c),
{
    let n: u32 = c as u32;
    (0x09 <= n && n <= 0x0D) || n == 0x20 || n == 0x85 || n == 0xA0 || n == 0x1680 || (0x2000 <= n
        && n <= 0x200A) || n == 0x2028 || n == 0x2029 || n == 0x202F || n == 0x205F || n == 0x3000
}

pub fn trim(s: &Vec<char>) -> (out: Vec<char>)
    ensures
        out@ == trimmed(s@),
{
    let mut a: usize = 0;
    assert(s@.skip(0) == s@);
    while a < s.len() && space(s[a])
        invariant
            a <= s.len(),
            trim_start(s@) == trim_start(s@.skip(a as int)),
        decreases s.len() - a,
    {
        assert(s@.skip(a as int).drop_first() == s@.skip(a + 1));
        a += 1;
    }
    assert(trim_start(s@) == s@.skip(a as int));
    let mut b: usize = s.len();
    let ghost rest = s@.skip(a as int);
    while b > a && space(s[b - 1])
        invariant
            a <= b <= s.len(),
            rest == s@.skip(a as int),
            trim_end(rest) == trim_end(s@.subrange(a as int, b as int)),
        decreases b,
    {
        assert(s@.subrange(a as int, b as int).drop_last() == s@.subrange(a as int, b - 1));
        b -= 1;
    }
    assert(trim_end(rest) == s@.subrange(a as int, b as int));
    let mut out: Vec<char> = Vec::new();
    let mut i: usize = a;
    while i < b
        invariant
            a <= i <= b <= s.len(),
            out@ == s@.subrange(a as int, i as int),
        decreases b - i,
    {
        out.push(s[i]);
        assert(s@.subrange(a as int, i + 1) == s@.subrange(a as int, i as int).push(s@[i as int]));
        i += 1;
    }
    out
}

pub fn clip(s: &Vec<char>, n: usize) -> (out: Vec<char>)
    ensures
        out@ == clipped(s@, n as nat),
{
    let end: usize = if s.len() <= n { s.len() } else { n };
    let mut out: Vec<char> = Vec::new();
    let mut i: usize = 0;
    while i < end
        invariant
            i <= end <= s.len(),
            out@ == s@.take(i as int),
        decreases end - i,
    {
        out.push(s[i]);
        assert(s@.take(i + 1) == s@.take(i as int).push(s@[i as int]));
        i += 1;
    }
    assert(s@.take(s.len() as int) == s@);
    out
}

/// Splits at every character that is `sep` (with `spaces` unset) or white
/// space (with `spaces` set), and keeps the pieces that are not empty.
fn split_pieces(s: &Vec<char>, sep: char, spaces: bool) -> (out: Vec<Vec<char>>)
    ensures
        vec_views(out@) == nonempty(
            split_by(
                s@,
                if spaces {
                    any_space()
                } else {
                    only(sep)
                },
            ),
        ),
{
    let ghost test = if spaces {
        any_space()
    } else {
        only(sep)
    };
    let mut out: Vec<Vec<char>> = Vec::new();
    let mut piece: Vec<char> = Vec::new();
    let ghost done: Seq<Seq<char>> = Seq::empty();
    let mut i: usize = 0;
    assert(s@.take(0) == Seq::<char>::empty());
    assert(vec_views(out@) =~= Seq::<Seq<char>>::empty());
    assert(done.push(piece@) =~= seq![Seq::<char>::empty()]);
    while i < s.len()
        invariant
            i <= s.len(),
            test == if spaces {
                any_space()
            } else {
                only(sep)
            },
            done.push(piece@) == split_by(s@.take(i as int), test),
            vec_views(out@) == nonempty(done),
        decreases s.len() - i,
    {
        let c = s[i];
        let ghost front = split_by(s@.take(i as int), test);
        assert(s@.take(i + 1).drop_last() == s@.take(i as int));
        assert(front.drop_last() == done);
        let at_sep = if spaces { space(c) } else { c == sep };
        assert(at_sep == test(c));
        if at_sep {
            let ghost shown = vec_views(out@);
            proof {
                assert(front.drop_last() == done);
            }
            assert(front.last() == piece@);
            if piece.len() > 0 {
                let whole = piece;
                piece = Vec::new();
                out.push(whole);
                assert(vec_views(out@) =~= shown.push(whole@));
            }
            assert(piece@ =~= Seq::<char>::empty());
            proof {
                done = front;
            }
        } else {
            piece.push(c);
            assert(done.push(piece@) == front.drop_last().push(front.last().push(c)));
        }
        i += 1;
    }
    assert(s@.take(s.len() as int) == s@);
    let ghost all = done.push(piece@);
    assert(all.drop_last() == done);
    if piece.len() > 0 {
        let ghost shown = vec_views(out@);
        out.push(piece);
        assert(vec_views(out@) =~= shown.push(all.last()));
    }
    out
}

/// The pieces of `s` between occurrences of `sep` that are not empty.
pub fn split_segments(s: &Vec<char>, sep: char) -> (out: Vec<Vec<char>>)
    ensures
        vec_views(out@) == segments(s@, sep),
{
    split_pieces(s, sep, false)
}

/// The words of `s`.
pub fn split_words(s: &Vec<char>) -> (out: Vec<Vec<char>>)
    ensures
        vec_views(out@) == words(s@),
{
    split_pieces(s, ' ', true)
}

pub fn append(out: &mut Vec<char>, more: &Vec<char>)
    ensures
        final(out)@ == old(out)@ + more@,
{
    let mut k: usize = 0;
    let ghost before = out@;
    assert(more@.take(0) == Seq::<char>::empty());
    assert(before + Seq::<char>::empty() == before);
    while k < more.len()
        invariant
            k <= more.len(),
            out@ == before + more@.take(k as int),
        decreases more.len() - k,
    {
        out.push(more[k]);
        assert(more@.take(k + 1) == more@.take(k as int).push(more@[k as int]));
        assert(out@ == before + more@.take(k + 1));
        k += 1;
    }
    assert(more@.take(more.len() as int) == more@);
}

/// The texts of `parts` with `sep` between each two of them.
pub fn join(parts: &Vec<Vec<char>>, sep: &Vec<char>) -> (out: Vec<char>)
    ensures
        out@ == joined(vec_views(parts@), sep@),
{
    let mut out: Vec<char> = Vec::new();
    let ghost all = vec_views(parts@);
    let mut i: usize = 0;
    assert(all.take(0) == Seq::<Seq<char>>::empty());
    while i < parts.len()
        invariant
            i <= parts.len(),
            all == vec_views(parts@),
            out@ == joined(all.take(i as int), sep@),
        decreases parts.len() - i,
    {
        let ghost front = all.take(i as int);
        assert(all.take(i + 1).drop_last() == front);
        assert(all.take(i + 1).last() == parts@[i as int]@);
        if i > 0 {
            append(&mut out, sep);
            append(&mut out, &parts[i]);
        } else {
            append(&mut out, &parts[i]);
            assert(Seq::<char>::empty() + parts@[0]@ == parts@[0]@);
            assert(all.take(1)[0] == parts@[0]@);
        }
        i += 1;
    }
    assert(all.take(parts.len() as int) == all);
    out
}

/// `s` with every run of white space turned into one blank and none left at
/// its ends.
pub fn collapse(s: &Vec<char>) -> (out: Vec<char>)
    ensures
        out@ == collapsed(s@),
{
    let blank: Vec<char> = vec![' '];
    assert(blank@ =~= seq![' ']);
    join(&split_words(s), &blank)
}

} // verus!
