use crate::lane_type::LaneType;
use vstd::prelude::*;

verus! {

/// The lane types that have a one-letter code in the compact road form.
pub open spec fn has_code(lt: LaneType) -> bool {
    match lt {
        LaneType::Driving | LaneType::Parking | LaneType::Sidewalk | LaneType::Biking
        | LaneType::Bus => true,
        LaneType::SharedLeftTurn | LaneType::Construction => false,
    }
}

/// The one-letter code of a lane type (meaningful where `has_code` holds).
pub open spec fn code_of(lt: LaneType) -> char {
    match lt {
        LaneType::Driving => 'd',
        LaneType::Parking => 'p',
        LaneType::Sidewalk => 's',
        LaneType::Biking => 'b',
        LaneType::Bus => 'u',
        LaneType::SharedLeftTurn | LaneType::Construction => '?',
    }
}

/// The lane type that a letter stands for, if any.
pub open spec fn lane_of_code(c: char) -> Option<LaneType> {
    if c == 'd' {
        Some(LaneType::Driving)
    } else if c == 'p' {
        Some(LaneType::Parking)
    } else if c == 's' {
        Some(LaneType::Sidewalk)
    } else if c == 'b' {
        Some(LaneType::Biking)
    } else if c == 'u' {
        Some(LaneType::Bus)
    } else {
        None
    }
}

pub open spec fn all_have_codes(s: Seq<LaneType>) -> bool {
    forall|i: int| 0 <= i < s.len() ==> has_code(#[trigger] s[i])
}

pub open spec fn encode_side(s: Seq<LaneType>) -> Seq<char> {
    s.map_values(|lt: LaneType| code_of(lt))
}

/// The compact form `<forward letters>/<backward letters>`.
pub open spec fn encode(fwd: Seq<LaneType>, back: Seq<LaneType>) -> Seq<char> {
    encode_side(fwd) + seq!['/'] + encode_side(back)
}

/// Every letter of `s` is a lane code.
pub open spec fn valid_side(s: Seq<char>) -> bool {
    forall|i: int| 0 <= i < s.len() ==> (#[trigger] lane_of_code(s[i])) is Some
}

pub open spec fn decode_side(s: Seq<char>) -> Seq<LaneType> {
    s.map_values(|c: char| lane_of_code(c).unwrap())
}

/// `i` is where the slash of a well-formed compact form stands.
pub open spec fn slash_at(s: Seq<char>, i: int) -> bool {
    &&& 0 <= i < s.len()
    &&& s[i] == '/'
    &&& valid_side(s.subrange(0, i))
    &&& valid_side(s.subrange(i + 1, s.len() as int))
}

/// What the compact form `s` denotes: one slash, lane codes on both sides of it.
pub open spec fn decode(s: Seq<char>) -> Option<(Seq<LaneType>, Seq<LaneType>)> {
    if exists|i: int| slash_at(s, i) {
        let i = choose|i: int| slash_at(s, i);
        Some((decode_side(s.subrange(0, i)), decode_side(s.subrange(i + 1, s.len() as int))))
    } else {
        None
    }
}

/// A well-formed compact form has its slash at one place only.
pub proof fn lemma_slash_unique(s: Seq<char>, i: int, j: int)
    requires
        slash_at(s, i),
        slash_at(s, j),
    ensures
        i == j,
{
    if i < j {
        assert(s.subrange(0, j)[i] == s[i]);
        assert(lane_of_code(s.subrange(0, j)[i]) is Some);
    } else if j < i {
        assert(s.subrange(0, i)[j] == s[j]);
        assert(lane_of_code(s.subrange(0, i)[j]) is Some);
    }
}

proof fn lemma_decode_encode_side(s: Seq<LaneType>)
    requires
        all_have_codes(s),
    ensures
        valid_side(encode_side(s)),
        decode_side(encode_side(s)) == s,
{
    assert forall|i: int| 0 <= i < encode_side(s).len() implies (#[trigger] lane_of_code(
        encode_side(s)[i],
    )) is Some by {
        assert(has_code(s[i]));
    }
    assert forall|i: int| 0 <= i < s.len() implies decode_side(encode_side(s))[i] == s[i] by {
        assert(has_code(s[i]));
    }
    assert(decode_side(encode_side(s)) =~= s);
}

/// Decoding the compact form of a road gives back its two lane sequences, for
/// every pair of sequences made of lane types that have a code.
pub proof fn lemma_round_trip(fwd: Seq<LaneType>, back: Seq<LaneType>)
    requires
        all_have_codes(fwd),
        all_have_codes(back),
    ensures
        decode(encode(fwd, back)) == Some((fwd, back)),
{
    let s = encode(fwd, back);
    let n = encode_side(fwd).len() as int;
    lemma_decode_encode_side(fwd);
    lemma_decode_encode_side(back);
    assert(s.subrange(0, n) =~= encode_side(fwd));
    assert(s.subrange(n + 1, s.len() as int) =~= encode_side(back));
    assert(slash_at(s, n));
    let i = choose|i: int| slash_at(s, i);
    lemma_slash_unique(s, i, n);
}

/// Relies on String::push: the character is appended at the end.
#[verifier::external_body]
fn push_char(s: &mut String, c: char)
    ensures
        final(s)@ == old(s)@.push(c),
{
    s.push(c)
}

/// A road's lanes in the compact, hand-written form: forward lanes, then
/// backward lanes.
pub struct RoadSpec {
    pub fwd: Vec<LaneType>,
    pub back: Vec<LaneType>,
}

impl RoadSpec {
    pub open spec fn has_codes(&self) -> bool {
        all_have_codes(self.fwd@) && all_have_codes(self.back@)
    }

    /// Writes the compact form `<forward letters>/<backward letters>`.
    pub fn to_string(&self) -> (r: String)
        requires
            self.has_codes(),
        ensures
            r@ == encode(self.fwd@, self.back@),
    {
        let mut s = String::new();
        let mut i: usize = 0;
        while i < self.fwd.len()
            invariant
                i <= self.fwd.len(),
                all_have_codes(self.fwd@),
                s@ == encode_side(self.fwd@.subrange(0, i as int)),
            decreases self.fwd.len() - i,
        {
            push_char(&mut s, RoadSpec::lt_to_char(self.fwd[i]));
            assert(self.fwd@.subrange(0, i + 1) =~= self.fwd@.subrange(0, i as int).push(
                self.fwd@[i as int],
            ));
            i = i + 1;
        }
        assert(self.fwd@.subrange(0, i as int) =~= self.fwd@);
        push_char(&mut s, '/');
        let ghost head = s@;
        let mut j: usize = 0;
        while j < self.back.len()
            invariant
                j <= self.back.len(),
                all_have_codes(self.back@),
                s@ == head + encode_side(self.back@.subrange(0, j as int)),
            decreases self.back.len() - j,
        {
            push_char(&mut s, RoadSpec::lt_to_char(self.back[j]));
            assert(self.back@.subrange(0, j + 1) =~= self.back@.subrange(0, j as int).push(
                self.back@[j as int],
            ));
            assert(encode_side(self.back@.subrange(0, j + 1)) =~= encode_side(
                self.back@.subrange(0, j as int),
            ).push(code_of(self.back@[j as int])));
            j = j + 1;
        }
        assert(self.back@.subrange(0, j as int) =~= self.back@);
        assert(s@ =~= encode(self.fwd@, self.back@));
        s
    }

    /// Reads the compact form; `None` unless the text is lane codes around
    /// exactly one slash.
    pub fn parse(s: String) -> (r: Option<RoadSpec>)
        ensures
            match decode(s@) {
                Some(d) => r is Some && r->0.fwd@ == d.0 && r->0.back@ == d.1,
                None => r is None,
            },
    {
        let text = s.as_str();
        let n = text.unicode_len();
        let mut fwd: Vec<LaneType> = Vec::new();
        let mut back: Vec<LaneType> = Vec::new();
        let mut seen_slash = false;
        let ghost mut slash: int = 0;
        let mut i: usize = 0;
        while i < n
            invariant
                n == s@.len(),
                text@ == s@,
                i <= n,
                !seen_slash ==> valid_side(s@.subrange(0, i as int)) && fwd@ == decode_side(
                    s@.subrange(0, i as int),
                ) && back@.len() == 0,
                seen_slash ==> 0 <= slash < i && s@[slash] == '/' && valid_side(
                    s@.subrange(0, slash),
                ) && valid_side(s@.subrange(slash + 1, i as int)) && fwd@ == decode_side(
                    s@.subrange(0, slash),
                ) && back@ == decode_side(s@.subrange(slash + 1, i as int)),
            decreases n - i,
        {
            let c = text.get_char(i);
            let ghost pre = s@.subrange(0, i as int);
            assert(s@.subrange(0, i + 1) =~= pre.push(c));
            if !seen_slash && c == '/' {
                seen_slash = true;
                proof {
                    slash = i as int;
                }
                assert(s@.subrange(slash + 1, i + 1) =~= Seq::<char>::empty());
                assert(s@.subrange(0, slash) =~= pre);
            } else {
                match RoadSpec::char_to_lt(c) {
                    Some(lt) => {
                        if seen_slash {
                            let ghost mid = s@.subrange(slash + 1, i as int);
                            assert(s@.subrange(slash + 1, i + 1) =~= mid.push(c));
                            back.push(lt);
                            assert(back@ =~= decode_side(s@.subrange(slash + 1, i + 1)));
                        } else {
                            fwd.push(lt);
                            assert(fwd@ =~= decode_side(s@.subrange(0, i + 1)));
                        }
                    },
                    None => {
                        proof {
                            RoadSpec::lemma_bad_char(s@, i as int, seen_slash, slash);
                        }
                        return None;
                    },
                }
            }
            i = i + 1;
        }
        if seen_slash {
            proof {
                assert(s@.subrange(slash + 1, s@.len() as int) =~= s@.subrange(slash + 1, i as int));
                assert(slash_at(s@, slash));
                let k = choose|k: int| slash_at(s@, k);
                lemma_slash_unique(s@, k, slash);
            }
            Some(RoadSpec { fwd, back })
        } else {
            proof {
                assert(s@.subrange(0, i as int) =~= s@);
                if exists|k: int| slash_at(s@, k) {
                    let k = choose|k: int| slash_at(s@, k);
                    assert(lane_of_code(s@.subrange(0, i as int)[k]) is Some);
                }
            }
            None
        }
    }

    /// A letter that is neither a lane code nor the first slash leaves the text
    /// without a meaning.
    proof fn lemma_bad_char(s: Seq<char>, i: int, seen_slash: bool, slash: int)
        requires
            0 <= i < s.len(),
            lane_of_code(s[i]) is None,
            seen_slash || s[i] != '/',
            !seen_slash ==> valid_side(s.subrange(0, i)),
            seen_slash ==> 0 <= slash < i && s[slash] == '/' && valid_side(s.subrange(0, slash)),
        ensures
            decode(s) is None,
    {
        if exists|k: int| slash_at(s, k) {
            let k = choose|k: int| slash_at(s, k);
            if seen_slash {
                if k < slash {
                    assert(lane_of_code(s.subrange(0, slash)[k]) is Some);
                } else if k > slash {
                    assert(lane_of_code(s.subrange(0, k)[slash]) is Some);
                } else {
                    assert(lane_of_code(s.subrange(k + 1, s.len() as int)[i - k - 1]) is Some);
                }
            } else {
                if k < i {
                    assert(lane_of_code(s.subrange(0, i)[k]) is Some);
                } else if k > i {
                    assert(lane_of_code(s.subrange(0, k)[i]) is Some);
                }
            }
        }
    }

    fn lt_to_char(lt: LaneType) -> (c: char)
        requires
            has_code(lt),
        ensures
            c == code_of(lt),
    {
        match lt {
            LaneType::Driving => 'd',
            LaneType::Parking => 'p',
            LaneType::Sidewalk => 's',
            LaneType::Biking => 'b',
            LaneType::Bus => 'u',
            LaneType::SharedLeftTurn | LaneType::Construction => '?',
        }
    }

    fn char_to_lt(c: char) -> (r: Option<LaneType>)
        ensures
            r == lane_of_code(c),
    {
        match c {
            'd' => Some(LaneType::Driving),
            'p' => Some(LaneType::Parking),
            's' => Some(LaneType::Sidewalk),
            'b' => Some(LaneType::Biking),
            'u' => Some(LaneType::Bus),
            _ => None,
        }
    }
}

} // verus!
