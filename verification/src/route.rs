//! Typed `custom_id` routing.
//!
//! A route is encoded as `skill/seg0/seg1/...`: the first segment names the
//! skill that owns the interaction, the others describe the step inside that
//! skill's workflow.

use vstd::prelude::*;

use crate::text::chars_of;

verus! {

/// A decoded `custom_id`: which skill owns the interaction, and the path
/// through that skill's workflow.
#[derive(Debug, Clone, PartialEq, Eq)]
pub struct Route {
    pub skill: String,
    pub segments: Vec<String>,
}

/// The separator between the parts of an encoded route.
pub open spec fn sep() -> char {
    '/'
}

/// The characters of each string of a sequence.
pub open spec fn strings_view(v: Seq<String>) -> Seq<Seq<char>> {
    v.map_values(|s: String| s@)
}

/// `skill`, followed by `/` and each segment in turn.
pub open spec fn encode_spec(skill: Seq<char>, segs: Seq<Seq<char>>) -> Seq<char>
    decreases segs.len(),
{
    if segs.len() == 0 {
        skill
    } else {
        encode_spec(skill, segs.drop_last()) + seq![sep()] + segs.last()
    }
}

/// The pieces of `s` between its separators, as `str::split('/')` yields them:
/// one piece more than there are separators, empty pieces included.
pub open spec fn split_spec(s: Seq<char>) -> Seq<Seq<char>>
    decreases s.len(),
{
    if s.len() == 0 {
        seq![Seq::<char>::empty()]
    } else {
        let rest = split_spec(s.drop_last());
        if s.last() == sep() {
            rest.push(Seq::<char>::empty())
        } else {
            rest.update(rest.len() - 1, rest.last().push(s.last()))
        }
    }
}

/// What `Route::decode` gives for `s`: the first piece is the skill and must
/// not be empty; the remaining pieces are the segments.
pub open spec fn decode_spec(s: Seq<char>) -> Option<(Seq<char>, Seq<Seq<char>>)> {
    let parts = split_spec(s);
    if parts[0].len() == 0 {
        None
    } else {
        Some((parts[0], parts.drop_first()))
    }
}

/// No character of `s` is the separator.
pub open spec fn no_sep(s: Seq<char>) -> bool {
    forall|i: int| 0 <= i < s.len() ==> s[i] != sep()
}

impl View for Route {
    type V = (Seq<char>, Seq<Seq<char>>);

    open spec fn view(&self) -> (Seq<char>, Seq<Seq<char>>) {
        (self.skill@, strings_view(self.segments@))
    }
}

/// `split_spec` never yields an empty list of pieces.
pub proof fn lemma_split_nonempty(s: Seq<char>)
    ensures
        split_spec(s).len() >= 1,
    decreases s.len(),
{
    if s.len() > 0 {
        lemma_split_nonempty(s.drop_last());
    }
}

/// Appending characters that hold no separator extends the last piece.
pub proof fn lemma_split_append_plain(a: Seq<char>, b: Seq<char>)
    requires
        no_sep(b),
    ensures
        split_spec(a + b) == split_spec(a).update(
            split_spec(a).len() - 1,
            split_spec(a).last() + b,
        ),
    decreases b.len(),
{
    lemma_split_nonempty(a);
    if b.len() == 0 {
        assert(a + b =~= a);
        assert(split_spec(a).last() + b =~= split_spec(a).last());
        assert(split_spec(a).update(split_spec(a).len() - 1, split_spec(a).last())
            =~= split_spec(a));
    } else {
        let b0 = b.drop_last();
        assert(no_sep(b0));
        lemma_split_append_plain(a, b0);
        assert((a + b).drop_last() =~= a + b0);
        assert((a + b).last() == b.last());
        assert(b[b.len() - 1] != sep());
        lemma_split_nonempty(a + b0);
        let rest = split_spec(a + b0);
        assert(split_spec(a + b) == rest.update(rest.len() - 1, rest.last().push(b.last())));
        let pa = split_spec(a);
        assert(rest.len() == pa.len());
        assert(rest.last() == pa.last() + b0);
        assert((pa.last() + b0).push(b.last()) =~= pa.last() + b);
        assert(split_spec(a).last() + b0 + seq![b.last()] =~= split_spec(a).last() + b);
        assert(split_spec(a + b) =~= split_spec(a).update(
            split_spec(a).len() - 1,
            split_spec(a).last() + b,
        ));
    }
}

/// A separator followed by a plain piece starts a new piece.
pub proof fn lemma_split_append_piece(a: Seq<char>, b: Seq<char>)
    requires
        no_sep(b),
    ensures
        split_spec(a + seq![sep()] + b) == split_spec(a).push(b),
{
    let a1 = a + seq![sep()];
    assert(a1.drop_last() =~= a);
    assert(split_spec(a1) == split_spec(a).push(Seq::<char>::empty()));
    lemma_split_append_plain(a1, b);
    assert(Seq::<char>::empty() + b =~= b);
    assert(split_spec(a1).update(split_spec(a1).len() - 1, split_spec(a1).last() + b)
        =~= split_spec(a).push(b));
}

/// Splitting an encoded route whose parts hold no separator gives its parts back.
pub proof fn lemma_split_encode(skill: Seq<char>, segs: Seq<Seq<char>>)
    requires
        no_sep(skill),
        forall|i: int| 0 <= i < segs.len() ==> no_sep(#[trigger] segs[i]),
    ensures
        split_spec(encode_spec(skill, segs)) == seq![skill] + segs,
    decreases segs.len(),
{
    if segs.len() == 0 {
        lemma_split_append_plain(Seq::<char>::empty(), skill);
        assert(Seq::<char>::empty() + skill =~= skill);
        assert(split_spec(Seq::<char>::empty()).update(0, Seq::<char>::empty() + skill)
            =~= seq![skill]);
        assert(seq![skill] + segs =~= seq![skill]);
    } else {
        let front = segs.drop_last();
        assert forall|i: int| 0 <= i < front.len() implies no_sep(#[trigger] front[i]) by {
            assert(front[i] == segs[i]);
        }
        lemma_split_encode(skill, front);
        assert(no_sep(segs[segs.len() - 1]));
        lemma_split_append_piece(encode_spec(skill, front), segs.last());
        assert((seq![skill] + front).push(segs.last()) =~= seq![skill] + segs);
    }
}

/// Encoding the pieces of any string gives that string back.
pub proof fn lemma_encode_split(s: Seq<char>)
    ensures
        encode_spec(split_spec(s)[0], split_spec(s).drop_first()) == s,
    decreases s.len(),
{
    lemma_split_nonempty(s);
    if s.len() == 0 {
        assert(split_spec(s).drop_first() =~= Seq::<Seq<char>>::empty());
    } else {
        let t = s.drop_last();
        let c = s.last();
        lemma_encode_split(t);
        lemma_split_nonempty(t);
        let pt = split_spec(t);
        let ps = split_spec(s);
        if c == sep() {
            assert(ps == pt.push(Seq::<char>::empty()));
            assert(ps[0] == pt[0]);
            assert(ps.drop_first() =~= pt.drop_first().push(Seq::<char>::empty()));
            assert(ps.drop_first().drop_last() =~= pt.drop_first());
            assert(encode_spec(ps[0], ps.drop_first()) =~= t + seq![sep()] + Seq::<char>::empty());
            assert(t + seq![sep()] + Seq::<char>::empty() =~= s);
        } else if pt.len() == 1 {
            assert(ps =~= seq![pt[0].push(c)]);
            assert(ps.drop_first() =~= Seq::<Seq<char>>::empty());
            assert(pt.drop_first() =~= Seq::<Seq<char>>::empty());
            assert(pt[0] == t);
            assert(t.push(c) =~= s);
        } else {
            assert(ps[0] == pt[0]);
            let segs_t = pt.drop_first();
            let segs_s = ps.drop_first();
            assert(segs_s.drop_last() =~= segs_t.drop_last());
            assert(segs_s.last() == segs_t.last().push(c));
            assert(encode_spec(pt[0], segs_t) == encode_spec(pt[0], segs_t.drop_last()) + seq![
                sep(),
            ] + segs_t.last());
            assert(encode_spec(ps[0], segs_s) =~= encode_spec(pt[0], segs_t).push(c));
            assert(t.push(c) =~= s);
        }
    }
}

/// A single piece means the text holds no separator and is that piece.
pub proof fn lemma_split_single(s: Seq<char>)
    requires
        split_spec(s).len() == 1,
    ensures
        no_sep(s),
        split_spec(s)[0] == s,
    decreases s.len(),
{
    if s.len() > 0 {
        let t = s.drop_last();
        lemma_split_nonempty(t);
        if s.last() == sep() {
            assert(split_spec(s).len() == split_spec(t).len() + 1);
        } else {
            lemma_split_single(t);
            assert(t.push(s.last()) =~= s);
        }
    }
}

/// The first piece is empty exactly when the string is empty or starts with
/// the separator.
pub proof fn lemma_split_first_empty(s: Seq<char>)
    ensures
        (split_spec(s)[0].len() == 0) <==> (s.len() == 0 || s[0] == sep()),
    decreases s.len(),
{
    lemma_split_nonempty(s);
    if s.len() > 0 {
        let t = s.drop_last();
        lemma_split_first_empty(t);
        lemma_split_nonempty(t);
        if t.len() > 0 {
            assert(t[0] == s[0]);
        }
        if split_spec(t).len() == 1 && s.last() != sep() {
            lemma_split_single(t);
            assert(split_spec(s)[0] == split_spec(t)[0].push(s.last()));
        }
        if t.len() == 0 {
            assert(t =~= Seq::<char>::empty());
        }
    }
}

/// Decoding an encoded route gives the route back, provided its skill is not
/// empty and neither the skill nor any segment holds the separator.
pub proof fn law_decode_encode(skill: Seq<char>, segs: Seq<Seq<char>>)
    requires
        skill.len() > 0,
        no_sep(skill),
        forall|i: int| 0 <= i < segs.len() ==> no_sep(#[trigger] segs[i]),
    ensures
        decode_spec(encode_spec(skill, segs)) == Some((skill, segs)),
{
    lemma_split_encode(skill, segs);
    assert((seq![skill] + segs).drop_first() =~= segs);
}

/// Whatever decodes encodes back to the very same text.
pub proof fn law_encode_decode(s: Seq<char>)
    ensures
        decode_spec(s) matches Some((skill, segs)) ==> encode_spec(skill, segs) == s,
{
    lemma_encode_split(s);
}

/// Decoding fails exactly on the empty text and on text that starts with the
/// separator.
pub proof fn law_decode_fails(s: Seq<char>)
    ensures
        decode_spec(s) is None <==> (s.len() == 0 || s[0] == sep()),
{
    lemma_split_first_empty(s);
}

impl Route {
    /// A route owned by `skill` with the given segments.
    pub fn new(skill: String, segments: Vec<String>) -> (r: Route)
        ensures
            r.skill == skill,
            r.segments == segments,
            r@ == (skill@, strings_view(segments@)),
    {
        Route { skill, segments }
    }

    /// The `custom_id` text of this route: `skill/seg0/seg1/...`.
    pub fn encode(&self) -> (out: String)
        ensures
            out@ == encode_spec(self@.0, self@.1),
    {
        let mut out = self.skill.clone();
        let n = self.segments.len();
        let mut i: usize = 0;
        while i < n
            invariant
                n == self.segments@.len(),
                i <= n,
                out@ == encode_spec(self.skill@, strings_view(self.segments@.take(i as int))),
            decreases n - i,
        {
            out.append("/");
            out.append(self.segments[i].as_str());
            proof {
                reveal_strlit("/");
                let segs = strings_view(self.segments@.take(i + 1));
                assert(segs.drop_last() =~= strings_view(self.segments@.take(i as int)));
                assert(segs.last() == self.segments@[i as int]@);
            }
            i = i + 1;
        }
        assert(self.segments@.take(n as int) =~= self.segments@);
        out
    }

    /// Decodes a `custom_id`; `None` when its first segment (the skill) is empty.
    pub fn decode(custom_id: &str) -> (r: Option<Route>)
        ensures
            match r {
                Some(route) => decode_spec(custom_id@) == Some(route@),
                None => decode_spec(custom_id@) is None,
            },
            r is None <==> (custom_id@.len() == 0 || custom_id@[0] == sep()),
    {
        proof {
            law_decode_fails(custom_id@);
        }
        let chars = chars_of(custom_id);
        let n = chars.len();
        let mut parts: Vec<String> = Vec::new();
        let mut start: usize = 0;
        let mut i: usize = 0;
        assert(custom_id@.take(0) =~= Seq::<char>::empty());
        assert(custom_id@.subrange(0, 0) =~= Seq::<char>::empty());
        assert(strings_view(parts@) =~= Seq::<Seq<char>>::empty());
        while i < n
            invariant
                n == custom_id@.len(),
                chars@ == custom_id@,
                start <= i <= n,
                split_spec(custom_id@.take(i as int)) == strings_view(parts@).push(
                    custom_id@.subrange(start as int, i as int),
                ),
            decreases n - i,
        {
            let ghost t = custom_id@.take(i as int);
            let ghost t1 = custom_id@.take(i + 1);
            assert(t1.drop_last() =~= t);
            assert(t1.last() == custom_id@[i as int]);
            if chars[i] == '/' {
                let ghost old_parts = parts@;
                let piece = String::from_str(custom_id.substring_char(start, i));
                parts.push(piece);
                proof {
                    assert(strings_view(parts@) =~= strings_view(old_parts).push(
                        custom_id@.subrange(start as int, i as int),
                    ));
                }
                start = i + 1;
                proof {
                    assert(custom_id@.subrange(start as int, i + 1) =~= Seq::<char>::empty());
                }
            } else {
                proof {
                    lemma_split_nonempty(t);
                    assert(custom_id@.subrange(start as int, i + 1) =~= custom_id@.subrange(
                        start as int,
                        i as int,
                    ).push(custom_id@[i as int]));
                    assert(split_spec(t1) =~= strings_view(parts@).push(
                        custom_id@.subrange(start as int, i + 1),
                    ));
                }
            }
            i = i + 1;
        }
        let last = String::from_str(custom_id.substring_char(start, n));
        parts.push(last);
        proof {
            assert(custom_id@.take(n as int) =~= custom_id@);
            assert(strings_view(parts@) =~= split_spec(custom_id@));
        }
        let skill = parts.remove(0);
        proof {
            assert(strings_view(parts@) =~= split_spec(custom_id@).drop_first());
        }
        if skill.as_str().is_empty() {
            None
        } else {
            Some(Route { skill, segments: parts })
        }
    }
}

} // verus!
