//! Readings of number literals: which tokens denote a number, and which one.
use vstd::prelude::*;
use crate::number::Num;

verus! {

/// One token and the number it denotes.
pub struct Reading {
    pub token: String,
    pub num: Num,
}

/// A table of number literals. Decimal conversion is done outside this crate;
/// a token that the table does not list is not a number.
pub struct Literals {
    pub readings: Vec<Reading>,
}

/// The number that the first reading for `t` gives, if any.
pub open spec fn reading_in(rs: Seq<Reading>, t: Seq<char>) -> Option<(u64, Seq<char>)>
    decreases rs.len(),
{
    if rs.len() == 0 {
        None
    } else if rs[0].token@ == t {
        Some(rs[0].num@)
    } else {
        reading_in(rs.drop_first(), t)
    }
}

impl Literals {
    /// The number that the token `t` denotes, if any.
    pub open spec fn reading(&self, t: Seq<char>) -> Option<(u64, Seq<char>)> {
        reading_in(self.readings@, t)
    }

    /// A table that lists no literal.
    pub fn new() -> (r: Literals)
        ensures
            forall|t: Seq<char>| r.reading(t) is None,
    {
        Literals { readings: Vec::new() }
    }

    /// Records that `token` denotes `num`; an earlier reading of the token stays.
    pub fn add(&mut self, token: String, num: Num)
        ensures
            final(self).reading(token@) == (match old(self).reading(token@) {
                Some(n) => Some(n),
                None => Some(num@),
            }),
            forall|t: Seq<char>| t != token@ ==> final(self).reading(t) == old(self).reading(t),
    {
        let ghost rs = self.readings@;
        let ghost tk = token@;
        let ghost nm = num@;
        self.readings.push(Reading { token, num });
        proof {
            lemma_reading_push(rs, Reading { token: self.readings@.last().token, num: self.readings@.last().num }, tk);
            assert(self.readings@ == rs.push(self.readings@.last()));
            assert forall|t: Seq<char>| t != tk implies #[trigger] reading_in(self.readings@, t) == reading_in(rs, t) by {
                lemma_reading_push(rs, self.readings@.last(), t);
            }
            lemma_reading_push(rs, self.readings@.last(), tk);
        }
    }

    /// The number that `t` denotes, if any.
    pub fn lookup(&self, t: &str) -> (r: Option<Num>)
        ensures
            match r {
                Some(n) => self.reading(t@) == Some(n@),
                None => self.reading(t@) is None,
            },
    {
        let mut i: usize = 0;
        assert(self.readings@.skip(0) == self.readings@);
        while i < self.readings.len()
            invariant
                i <= self.readings@.len(),
                reading_in(self.readings@, t@) == reading_in(self.readings@.skip(i as int), t@),
            decreases self.readings@.len() - i,
        {
            let ghost rest = self.readings@.skip(i as int);
            assert(rest.drop_first() == self.readings@.skip(i + 1));
            if crate::text::str_eq(self.readings[i].token.as_str(), t) {
                return Some(self.readings[i].num.duplicate());
            }
            i = i + 1;
        }
        None
    }
}

proof fn lemma_reading_push(rs: Seq<Reading>, x: Reading, t: Seq<char>)
    ensures
        reading_in(rs.push(x), t) == (match reading_in(rs, t) {
            Some(n) => Some(n),
            None => if x.token@ == t { Some(x.num@) } else { None },
        }),
    decreases rs.len(),
{
    if rs.len() > 0 {
        assert(rs.push(x).drop_first() == rs.drop_first().push(x));
        assert(rs.push(x)[0] == rs[0]);
        lemma_reading_push(rs.drop_first(), x, t);
    } else {
        assert(rs.push(x).drop_first() == Seq::<Reading>::empty());
        assert(rs.push(x)[0] == x);
        assert(reading_in(Seq::<Reading>::empty(), t) is None);
    }
}

} // verus!
