//! The alias store: a table of `name -> replacement` pairs with unique,
//! whitespace-trimmed keys, rendered to and restored from a flat `name=value`
//! text, one pair per line.
use vstd::prelude::*;

use crate::text::{
    lemma_split_eq_of_join, lemma_trim_idempotent, split_eq_spec, split_first_eq, str_eq, trim,
    trim_spec,
};

verus! {

/// One stored pair: both sides already trimmed.
pub open spec fn entry_trimmed(p: (Seq<char>, Seq<char>)) -> bool {
    trim_spec(p.0) == p.0 && trim_spec(p.1) == p.1
}

/// A well-formed table: keys pairwise distinct, every entry trimmed.
pub open spec fn table_wf(t: Seq<(Seq<char>, Seq<char>)>) -> bool {
    &&& (forall|i: int, j: int| 0 <= i < j < t.len() ==> t[i].0 != t[j].0)
    &&& (forall|i: int| 0 <= i < t.len() ==> entry_trimmed(#[trigger] t[i]))
}

/// The value stored under `k`, if any (first match).
pub open spec fn lookup_spec(t: Seq<(Seq<char>, Seq<char>)>, k: Seq<char>) -> Option<Seq<char>>
    decreases t.len(),
{
    if t.len() == 0 {
        None
    } else if t[0].0 == k {
        Some(t[0].1)
    } else {
        lookup_spec(t.drop_first(), k)
    }
}

/// The table after `k` is bound to `v`: an existing binding of `k` is
/// overwritten in place, a new one is appended.
pub open spec fn upsert_spec(
    t: Seq<(Seq<char>, Seq<char>)>,
    k: Seq<char>,
    v: Seq<char>,
) -> Seq<(Seq<char>, Seq<char>)>
    decreases t.len(),
{
    if t.len() == 0 {
        seq![(k, v)]
    } else if t[0].0 == k {
        seq![(k, v)] + t.drop_first()
    } else {
        seq![t[0]] + upsert_spec(t.drop_first(), k, v)
    }
}

/// The line a table expands an input to: the stored replacement when the
/// trimmed input is exactly a key, the trimmed input itself otherwise.
pub open spec fn expand_spec(t: Seq<(Seq<char>, Seq<char>)>, line: Seq<char>) -> Seq<char> {
    match lookup_spec(t, trim_spec(line)) {
        Some(v) => v,
        None => trim_spec(line),
    }
}

/// The persisted text of a table: each pair as one `name=value` line.
pub open spec fn render_spec(t: Seq<(Seq<char>, Seq<char>)>) -> Seq<char>
    decreases t.len(),
{
    if t.len() == 0 {
        Seq::empty()
    } else {
        t[0].0 + seq!['='] + t[0].1 + seq!['\n'] + render_spec(t.drop_first())
    }
}

/// The segments of a text between `\n` characters (always at least one).
pub open spec fn split_nl_spec(text: Seq<char>) -> Seq<Seq<char>>
    decreases text.len(),
{
    if text.len() == 0 {
        seq![Seq::empty()]
    } else if text[0] == '\n' {
        seq![Seq::<char>::empty()] + split_nl_spec(text.drop_first())
    } else {
        let rest = split_nl_spec(text.drop_first());
        seq![seq![text[0]] + rest[0]] + rest.drop_first()
    }
}

pub proof fn lemma_split_nl_len(text: Seq<char>)
    ensures
        split_nl_spec(text).len() >= 1,
    decreases text.len(),
{
    if text.len() > 0 {
        lemma_split_nl_len(text.drop_first());
    }
}

/// The lines of a persisted text, as a line-by-line reader yields them: the
/// segments between `\n`s, without a final empty segment.
pub open spec fn lines_spec(text: Seq<char>) -> Seq<Seq<char>> {
    let segs = split_nl_spec(text);
    if segs.last() == Seq::<char>::empty() {
        segs.drop_last()
    } else {
        segs
    }
}

/// The table after one line is read: a line with no `=` is skipped, any
/// other inserts its two trimmed sides.
pub open spec fn apply_line_spec(
    t: Seq<(Seq<char>, Seq<char>)>,
    line: Seq<char>,
) -> Seq<(Seq<char>, Seq<char>)> {
    match split_eq_spec(line) {
        None => t,
        Some((k, v)) => upsert_spec(t, trim_spec(k), trim_spec(v)),
    }
}

pub open spec fn merge_lines_spec(
    t: Seq<(Seq<char>, Seq<char>)>,
    ls: Seq<Seq<char>>,
) -> Seq<(Seq<char>, Seq<char>)>
    decreases ls.len(),
{
    if ls.len() == 0 {
        t
    } else {
        merge_lines_spec(apply_line_spec(t, ls[0]), ls.drop_first())
    }
}

/// The table after a persisted text is read into `t`, line by line.
pub open spec fn load_spec(
    t: Seq<(Seq<char>, Seq<char>)>,
    text: Seq<char>,
) -> Seq<(Seq<char>, Seq<char>)> {
    merge_lines_spec(t, lines_spec(text))
}

proof fn lemma_upsert_found(t: Seq<(Seq<char>, Seq<char>)>, k: Seq<char>, v: Seq<char>, i: int)
    requires
        0 <= i < t.len(),
        t[i].0 == k,
        forall|j: int| 0 <= j < i ==> t[j].0 != k,
    ensures
        upsert_spec(t, k, v) == t.update(i, (k, v)),
    decreases i,
{
    if i == 0 {
        assert(seq![(k, v)] + t.drop_first() =~= t.update(0, (k, v)));
    } else {
        lemma_upsert_found(t.drop_first(), k, v, i - 1);
        assert(seq![t[0]] + t.drop_first().update(i - 1, (k, v)) =~= t.update(i, (k, v)));
    }
}

proof fn lemma_upsert_absent(t: Seq<(Seq<char>, Seq<char>)>, k: Seq<char>, v: Seq<char>)
    requires
        forall|j: int| 0 <= j < t.len() ==> t[j].0 != k,
    ensures
        upsert_spec(t, k, v) == t.push((k, v)),
    decreases t.len(),
{
    if t.len() == 0 {
        assert(upsert_spec(t, k, v) =~= t.push((k, v)));
    } else {
        lemma_upsert_absent(t.drop_first(), k, v);
        assert(seq![t[0]] + t.drop_first().push((k, v)) =~= t.push((k, v)));
    }
}

/// After an upsert, looking the key up yields the new value.
pub proof fn lemma_upsert_lookup_hit(t: Seq<(Seq<char>, Seq<char>)>, k: Seq<char>, v: Seq<char>)
    ensures
        lookup_spec(upsert_spec(t, k, v), k) == Some(v),
    decreases t.len(),
{
    if t.len() == 0 {
    } else if t[0].0 == k {
        assert((seq![(k, v)] + t.drop_first())[0] == (k, v));
    } else {
        lemma_upsert_lookup_hit(t.drop_first(), k, v);
        let u = seq![t[0]] + upsert_spec(t.drop_first(), k, v);
        assert(u[0] == t[0]);
        assert(u.drop_first() =~= upsert_spec(t.drop_first(), k, v));
    }
}

/// An upsert leaves every other key's binding as it was.
pub proof fn lemma_upsert_lookup_miss(
    t: Seq<(Seq<char>, Seq<char>)>,
    k: Seq<char>,
    v: Seq<char>,
    k2: Seq<char>,
)
    requires
        k2 != k,
    ensures
        lookup_spec(upsert_spec(t, k, v), k2) == lookup_spec(t, k2),
    decreases t.len(),
{
    if t.len() == 0 {
        let u = seq![(k, v)];
        assert(u.drop_first() =~= t);
        assert(lookup_spec(u, k2) == lookup_spec(t, k2));
    } else if t[0].0 == k {
        let u = seq![(k, v)] + t.drop_first();
        assert(u[0] == (k, v));
        assert(u.drop_first() =~= t.drop_first());
        assert(lookup_spec(u, k2) == lookup_spec(u.drop_first(), k2));
        assert(lookup_spec(t, k2) == lookup_spec(t.drop_first(), k2));
    } else {
        lemma_upsert_lookup_miss(t.drop_first(), k, v, k2);
        let u = seq![t[0]] + upsert_spec(t.drop_first(), k, v);
        assert(u[0] == t[0]);
        assert(u.drop_first() =~= upsert_spec(t.drop_first(), k, v));
        if t[0].0 == k2 {
            assert(lookup_spec(u, k2) == Some(u[0].1));
            assert(lookup_spec(t, k2) == Some(t[0].1));
        } else {
            assert(lookup_spec(u, k2) == lookup_spec(u.drop_first(), k2));
            assert(lookup_spec(t, k2) == lookup_spec(t.drop_first(), k2));
        }
    }
}

/// The alias store.
pub struct AliasTable {
    pairs: Vec<(String, String)>,
}

impl View for AliasTable {
    type V = Seq<(Seq<char>, Seq<char>)>;

    closed spec fn view(&self) -> Self::V {
        self.pairs@.map_values(|p: (String, String)| (p.0@, p.1@))
    }
}

impl AliasTable {
    pub open spec fn wf(&self) -> bool {
        table_wf(self@)
    }

    /// An empty table.
    pub fn new() -> (t: AliasTable)
        ensures
            t@ == Seq::<(Seq<char>, Seq<char>)>::empty(),
            t.wf(),
    {
        let t = AliasTable { pairs: Vec::new() };
        proof {
            assert(t@ =~= Seq::<(Seq<char>, Seq<char>)>::empty());
        }
        t
    }

    /// How many aliases are stored.
    pub fn len(&self) -> (n: usize)
        ensures
            n == self@.len(),
    {
        self.pairs.len()
    }

    /// The value stored under the given key, if any.
    pub fn lookup(&self, key: &str) -> (r: Option<String>)
        ensures
            (match r {
                Some(v) => lookup_spec(self@, key@) == Some(v@),
                None => lookup_spec(self@, key@) is None,
            }),
    {
        let n = self.pairs.len();
        let mut i: usize = 0;
        proof {
            assert(self@.skip(0) =~= self@);
        }
        while i < n
            invariant
                0 <= i <= n,
                n == self.pairs.len(),
                lookup_spec(self@, key@) == lookup_spec(self@.skip(i as int), key@),
            decreases n - i,
        {
            proof {
                assert(self@.skip(i as int)[0] == self@[i as int]);
                assert(self@.skip(i as int).drop_first() =~= self@.skip(i + 1));
            }
            if str_eq(self.pairs[i].0.as_str(), key) {
                return Some(self.pairs[i].1.clone());
            }
            i += 1;
        }
        proof {
            assert(self@.skip(n as int) =~= Seq::<(Seq<char>, Seq<char>)>::empty());
        }
        None
    }

    /// Binds the trimmed name to the trimmed value, overwriting any earlier
    /// binding of the same name.
    pub fn set(&mut self, name: &str, value: &str)
        requires
            old(self).wf(),
        ensures
            final(self)@ == upsert_spec(old(self)@, trim_spec(name@), trim_spec(value@)),
            final(self).wf(),
    {
        let k = trim(name);
        let v = trim(value);
        let n = self.pairs.len();
        let mut i: usize = 0;
        while i < n
            invariant
                0 <= i <= n,
                n == self.pairs.len(),
                self@ == old(self)@,
                self.wf(),
                k@ == trim_spec(name@),
                v@ == trim_spec(value@),
                forall|j: int| 0 <= j < i ==> self@[j].0 != k@,
            decreases n - i,
        {
            if str_eq(self.pairs[i].0.as_str(), k) {
                let pair = (String::from_str(k), String::from_str(v));
                let ghost oldview = self@;
                self.pairs.remove(i);
                self.pairs.insert(i, pair);
                proof {
                    assert(oldview[i as int].0 == k@);
                    assert(self@ =~= oldview.update(i as int, (k@, v@)));
                    lemma_upsert_found(oldview, k@, v@, i as int);
                    lemma_trim_idempotent(name@);
                    lemma_trim_idempotent(value@);
                    assert(forall|x: int| 0 <= x < self@.len() && x != i ==> self@[x]
                        == oldview[x]);
                    assert(self@[i as int] == (k@, v@));
                    assert(forall|j: int| i < j < oldview.len() ==> oldview[j].0 != k@);
                    assert(forall|a: int, b: int|
                        0 <= a < b < self@.len() ==> self@[a].0 != self@[b].0);
                    assert(forall|x: int|
                        0 <= x < self@.len() ==> entry_trimmed(#[trigger] self@[x]));
                }
                return ;
            }
            i += 1;
        }
        let pair = (String::from_str(k), String::from_str(v));
        let ghost oldview = self@;
        self.pairs.push(pair);
        proof {
            assert(self@ =~= oldview.push((k@, v@)));
            lemma_upsert_absent(oldview, k@, v@);
            lemma_trim_idempotent(name@);
            lemma_trim_idempotent(value@);
            assert(forall|x: int| 0 <= x < oldview.len() ==> self@[x] == oldview[x]);
        }
    }

    /// Expands an input line: the stored replacement when the trimmed line
    /// is exactly an alias name, the trimmed line itself otherwise.
    pub fn expand(&self, line: &str) -> (r: String)
        ensures
            r@ == expand_spec(self@, line@),
    {
        let t = trim(line);
        match self.lookup(t) {
            Some(v) => v,
            None => String::from_str(t),
        }
    }

    /// Renders the table as its persisted text, one `name=value` line per
    /// pair.
    pub fn serialize(&self) -> (r: String)
        ensures
            r@ == render_spec(self@),
    {
        let mut r = String::new();
        let n = self.pairs.len();
        let mut i: usize = 0;
        proof {
            assert(self@.skip(0) =~= self@);
        }
        while i < n
            invariant
                0 <= i <= n,
                n == self.pairs.len(),
                render_spec(self@) == r@ + render_spec(self@.skip(i as int)),
            decreases n - i,
        {
            let ghost suffix = self@.skip(i as int);
            r.append(self.pairs[i].0.as_str());
            r.append("=");
            r.append(self.pairs[i].1.as_str());
            r.append("\n");
            proof {
                reveal_strlit("=");
                reveal_strlit("\n");
                assert("="@ =~= seq!['=']);
                assert("\n"@ =~= seq!['\n']);
                assert(suffix[0] == self@[i as int]);
                assert(suffix.drop_first() =~= self@.skip(i + 1));
                assert(render_spec(suffix) == suffix[0].0 + seq!['='] + suffix[0].1 + seq!['\n']
                    + render_spec(self@.skip(i + 1)));
                assert(r@ + render_spec(self@.skip(i + 1)) =~= render_spec(self@));
            }
            i += 1;
        }
        proof {
            assert(self@.skip(n as int) =~= Seq::<(Seq<char>, Seq<char>)>::empty());
            assert(r@ + render_spec(self@.skip(n as int)) =~= r@);
        }
        r
    }

    /// Reads a persisted text into the table, line by line: each
    /// `name=value` line inserts its trimmed sides, a line with no `=` is
    /// skipped.
    pub fn absorb_text(&mut self, text: &str)
        requires
            old(self).wf(),
        ensures
            final(self)@ == load_spec(old(self)@, text@),
            final(self).wf(),
    {
        let len = text.unicode_len();
        let mut pos: usize = 0;
        proof {
            assert(text@.skip(0) =~= text@);
        }
        while pos < len
            invariant
                0 <= pos <= len,
                len == text@.len(),
                self.wf(),
                load_spec(old(self)@, text@) == load_spec(self@, text@.skip(pos as int)),
            decreases len - pos,
        {
            let mut j: usize = pos;
            while j < len && text.get_char(j) != '\n'
                invariant
                    pos <= j <= len,
                    len == text@.len(),
                    forall|k: int| pos <= k < j ==> text@[k] != '\n',
                decreases len - j,
            {
                j += 1;
            }
            let line = text.substring_char(pos, j);
            proof {
                assert(line@ =~= text@.skip(pos as int).take(j - pos));
            }
            let ghost suffix = text@.skip(pos as int);
            let ghost oldview = self@;
            match split_first_eq(line) {
                None => {},
                Some((k, v)) => {
                    self.set(k, v);
                },
            }
            proof {
                assert(self@ == apply_line_spec(oldview, line@));
            }
            if j == len {
                proof {
                    assert(forall|k: int| 0 <= k < suffix.len() ==> suffix[k] != '\n');
                    lemma_split_nl_no_nl(suffix);
                    assert(suffix.len() > 0);
                    assert(suffix =~= line@);
                    assert(split_nl_spec(suffix).last() == suffix);
                    assert(lines_spec(suffix) == seq![suffix]);
                    assert(lines_spec(suffix)[0] == line@);
                    assert(lines_spec(suffix).drop_first() =~= Seq::<Seq<char>>::empty());
                    assert(merge_lines_spec(oldview, lines_spec(suffix)) == merge_lines_spec(
                        self@,
                        lines_spec(suffix).drop_first(),
                    ));
                    assert(merge_lines_spec(self@, Seq::<Seq<char>>::empty()) == self@);
                    assert(text@.skip(len as int) =~= Seq::<char>::empty());
                    lemma_lines_empty();
                    assert(merge_lines_spec(self@, lines_spec(Seq::<char>::empty())) == self@);
                }
                pos = len;
            } else {
                proof {
                    assert(text@[j as int] == '\n');
                    assert(forall|k: int| 0 <= k < j - pos ==> suffix[k] != '\n');
                    assert(suffix[j - pos] == '\n');
                    assert(suffix.take(j - pos) =~= line@);
                    assert(suffix.skip(j - pos + 1) =~= text@.skip(j + 1));
                    lemma_lines_cons(line@, text@.skip(j + 1));
                    assert(line@ + seq!['\n'] + text@.skip(j + 1) =~= suffix);
                    assert(lines_spec(suffix).drop_first() =~= lines_spec(text@.skip(j + 1)));
                    assert(merge_lines_spec(oldview, lines_spec(suffix)) == merge_lines_spec(
                        self@,
                        lines_spec(text@.skip(j + 1)),
                    ));
                }
                pos = j + 1;
            }
        }
        proof {
            assert(text@.skip(len as int) =~= Seq::<char>::empty());
            lemma_lines_empty();
        }
    }
}

/// An empty text holds no lines.
proof fn lemma_lines_empty()
    ensures
        lines_spec(Seq::<char>::empty()) == Seq::<Seq<char>>::empty(),
{
    assert(split_nl_spec(Seq::<char>::empty()) =~= seq![Seq::<char>::empty()]);
    assert(lines_spec(Seq::<char>::empty()) =~= Seq::<Seq<char>>::empty());
}

/// A text that holds no `\n` is one line (when non-empty).
proof fn lemma_split_nl_no_nl(text: Seq<char>)
    requires
        forall|k: int| 0 <= k < text.len() ==> text[k] != '\n',
    ensures
        split_nl_spec(text) == seq![text],
    decreases text.len(),
{
    if text.len() == 0 {
        assert(text =~= Seq::<char>::empty());
        assert(split_nl_spec(text) =~= seq![text]);
    } else {
        lemma_split_nl_no_nl(text.drop_first());
        let rest = split_nl_spec(text.drop_first());
        assert(rest == seq![text.drop_first()]);
        assert(seq![text[0]] + rest[0] =~= text);
        assert(seq![seq![text[0]] + rest[0]] + rest.drop_first() =~= seq![text]);
    }
}

/// Prefixing a text with one `\n`-terminated line prefixes its line list
/// with that line.
proof fn lemma_lines_cons(line: Seq<char>, rest: Seq<char>)
    requires
        forall|k: int| 0 <= k < line.len() ==> line[k] != '\n',
    ensures
        lines_spec(line + seq!['\n'] + rest) == seq![line] + lines_spec(rest),
    decreases line.len(),
{
    lemma_split_nl_cons(line, rest);
    let text = line + seq!['\n'] + rest;
    let segs = split_nl_spec(text);
    let rsegs = split_nl_spec(rest);
    lemma_split_nl_len(rest);
    assert(segs == seq![line] + rsegs);
    assert(segs.last() == rsegs.last());
    if rsegs.last() == Seq::<char>::empty() {
        assert(segs.drop_last() =~= seq![line] + rsegs.drop_last());
    } else {
        assert(lines_spec(text) == seq![line] + lines_spec(rest));
    }
}

proof fn lemma_split_nl_cons(line: Seq<char>, rest: Seq<char>)
    requires
        forall|k: int| 0 <= k < line.len() ==> line[k] != '\n',
    ensures
        split_nl_spec(line + seq!['\n'] + rest) == seq![line] + split_nl_spec(rest),
    decreases line.len(),
{
    let text = line + seq!['\n'] + rest;
    if line.len() == 0 {
        assert(line =~= Seq::<char>::empty());
        assert(text[0] == '\n');
        assert(text.drop_first() =~= rest);
        assert(split_nl_spec(text) =~= seq![line] + split_nl_spec(rest));
    } else {
        assert(text[0] == line[0]);
        assert(text[0] != '\n');
        assert(text.drop_first() =~= line.drop_first() + seq!['\n'] + rest);
        lemma_split_nl_cons(line.drop_first(), rest);
        let inner = split_nl_spec(text.drop_first());
        lemma_split_nl_len(rest);
        assert(inner == seq![line.drop_first()] + split_nl_spec(rest));
        assert(inner[0] == line.drop_first());
        assert(seq![text[0]] + inner[0] =~= line);
        assert(inner.drop_first() =~= split_nl_spec(rest));
        assert(split_nl_spec(text) =~= seq![line] + split_nl_spec(rest));
    }
}

proof fn lemma_merge_render(acc: Seq<(Seq<char>, Seq<char>)>, t: Seq<(Seq<char>, Seq<char>)>)
    requires
        table_wf(t),
        forall|i: int, n: int| 0 <= i < t.len() && 0 <= n < t[i].0.len() ==> #[trigger] t[i].0[n]
            != '=',
        forall|i: int, n: int| 0 <= i < t.len() && 0 <= n < t[i].0.len() ==> #[trigger] t[i].0[n]
            != '\n',
        forall|i: int, n: int| 0 <= i < t.len() && 0 <= n < t[i].1.len() ==> #[trigger] t[i].1[n]
            != '\n',
        forall|i: int, j: int| 0 <= i < t.len() && 0 <= j < acc.len() ==> acc[j].0 != t[i].0,
    ensures
        merge_lines_spec(acc, lines_spec(render_spec(t))) == acc + t,
    decreases t.len(),
{
    if t.len() == 0 {
        lemma_lines_empty();
        assert(acc + t =~= acc);
    } else {
        let k = t[0].0;
        let v = t[0].1;
        let line = k + seq!['='] + v;
        let rest = render_spec(t.drop_first());
        assert(forall|n: int| 0 <= n < line.len() ==> line[n] != '\n') by {
            assert(forall|n: int| 0 <= n < k.len() ==> line[n] == k[n]);
            assert(line[k.len() as int] == '=');
            assert(forall|n: int|
                k.len() + 1 <= n < line.len() ==> line[n] == v[n - k.len() - 1]);
        }
        assert(render_spec(t) =~= line + seq!['\n'] + rest);
        lemma_lines_cons(line, rest);
        assert(lines_spec(render_spec(t)).drop_first() =~= lines_spec(rest));
        lemma_split_eq_of_join(k, v);
        assert(trim_spec(k) == k && trim_spec(v) == v);
        assert(apply_line_spec(acc, line) == upsert_spec(acc, k, v));
        lemma_upsert_absent(acc, k, v);
        let acc2 = acc.push((k, v));
        assert(forall|i: int, j: int|
            0 <= i < t.drop_first().len() && 0 <= j < acc2.len() ==> acc2[j].0 != t.drop_first()[
                i
            ].0) by {
            assert(forall|i: int|
                0 <= i < t.drop_first().len() ==> t.drop_first()[i] == t[i + 1]);
        }
        lemma_merge_render(acc2, t.drop_first());
        assert(acc2 + t.drop_first() =~= acc + t);
    }
}

/// Law: a table whose keys hold no `=` and no `\n`, and whose values hold
/// no `\n`, is restored exactly — pair for pair, in order — when the text
/// it was rendered to is read back into an empty table.
pub proof fn lemma_save_load_round_trip(t: Seq<(Seq<char>, Seq<char>)>)
    requires
        table_wf(t),
        forall|i: int, n: int| 0 <= i < t.len() && 0 <= n < t[i].0.len() ==> #[trigger] t[i].0[n]
            != '=',
        forall|i: int, n: int| 0 <= i < t.len() && 0 <= n < t[i].0.len() ==> #[trigger] t[i].0[n]
            != '\n',
        forall|i: int, n: int| 0 <= i < t.len() && 0 <= n < t[i].1.len() ==> #[trigger] t[i].1[n]
            != '\n',
    ensures
        load_spec(Seq::empty(), render_spec(t)) == t,
{
    lemma_merge_render(Seq::empty(), t);
    assert(Seq::empty() + t =~= t);
}

/// Law: rendering is a function of the stored pairs alone, so saving twice
/// with no change in between writes byte-identical text.
pub proof fn lemma_render_deterministic(
    t1: Seq<(Seq<char>, Seq<char>)>,
    t2: Seq<(Seq<char>, Seq<char>)>,
)
    requires
        t1 == t2,
    ensures
        render_spec(t1) == render_spec(t2),
{
}

/// Law: once `set(name, value)` has run, a line that trims to exactly the
/// trimmed `name` expands to the trimmed `value`; a line that matches no
/// stored name passes through (trimmed) unchanged.
pub proof fn lemma_alias_expansion(
    t: Seq<(Seq<char>, Seq<char>)>,
    name: Seq<char>,
    value: Seq<char>,
    line: Seq<char>,
)
    ensures
        trim_spec(line) == trim_spec(name) ==> expand_spec(
            upsert_spec(t, trim_spec(name), trim_spec(value)),
            line,
        ) == trim_spec(value),
        lookup_spec(upsert_spec(t, trim_spec(name), trim_spec(value)), trim_spec(line)) is None
            ==> expand_spec(upsert_spec(t, trim_spec(name), trim_spec(value)), line) == trim_spec(
            line,
        ),
{
    if trim_spec(line) == trim_spec(name) {
        lemma_upsert_lookup_hit(t, trim_spec(name), trim_spec(value));
    }
}

} // verus!
