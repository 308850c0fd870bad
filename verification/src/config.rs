//! The service's settings read from text.
use vstd::prelude::*;
use crate::text::{chars_of, digits_value, is_u8_text, parse_u8, split_chars, split_on, trim_chars, trimmed, unsigned_part, views_of};

verus! {

/// The non-empty, trimmed fields among the first `k` pieces.
pub open spec fn fields_upto(pieces: Seq<Seq<char>>, k: int) -> Seq<Seq<char>>
    decreases k,
{
    if k <= 0 {
        Seq::empty()
    } else if trimmed(pieces[k - 1]).len() > 0 {
        fields_upto(pieces, k - 1).push(trimmed(pieces[k - 1]))
    } else {
        fields_upto(pieces, k - 1)
    }
}

/// The non-empty, trimmed, comma-separated fields of a sport list.
pub open spec fn sport_fields(raw: Seq<char>) -> Seq<Seq<char>> {
    fields_upto(split_on(raw, ','), split_on(raw, ',').len() as int)
}

/// The fields among the first `k` pieces come first among those of the first `m`.
pub proof fn lemma_fields_prefix(pieces: Seq<Seq<char>>, k: int, m: int)
    requires
        0 <= k <= m,
    ensures
        fields_upto(pieces, k).len() <= fields_upto(pieces, m).len(),
        forall|j: int| 0 <= j < fields_upto(pieces, k).len() ==>
            #[trigger] fields_upto(pieces, k)[j] == fields_upto(pieces, m)[j],
    decreases m - k,
{
    if k < m {
        lemma_fields_prefix(pieces, k, m - 1);
    }
}

/// Reads a comma-separated list of sport identifiers: each field is trimmed,
/// empty fields are skipped, and every other field must be a `u8`.
pub fn parse_sport_ids(raw: &str) -> (r: Option<Vec<u8>>)
    ensures
        r is Some <==> (forall|i: int| 0 <= i < sport_fields(raw@).len() ==> is_u8_text(#[trigger] sport_fields(raw@)[i])),
        r matches Some(v) ==> v@.len() == sport_fields(raw@).len() && forall|i: int| 0 <= i < v@.len()
            ==> #[trigger] v@[i] as int == digits_value(unsigned_part(sport_fields(raw@)[i])),
{
    let chars = chars_of(raw);
    let parts = split_chars(&chars, ',');
    let ghost ps = split_on(raw@, ',');
    assert(views_of(parts@) == ps);
    let mut ids: Vec<u8> = Vec::new();
    let mut i: usize = 0;
    while i < parts.len()
        invariant
            i <= parts@.len(),
            views_of(parts@) == ps,
            ps == split_on(raw@, ','),
            ps.len() == parts@.len(),
            ids@.len() == fields_upto(ps, i as int).len(),
            forall|j: int| 0 <= j < ids@.len() ==> is_u8_text(#[trigger] fields_upto(ps, i as int)[j]),
            forall|j: int| 0 <= j < ids@.len() ==> #[trigger] ids@[j] as int == digits_value(unsigned_part(fields_upto(ps, i as int)[j])),
        decreases parts@.len() - i,
    {
        let field = trim_chars(&parts[i]);
        assert(parts@[i as int]@ == ps[i as int]);
        let ghost before = fields_upto(ps, i as int);
        if field.len() == 0 {
            assert(fields_upto(ps, i + 1) == before);
        } else {
            assert(fields_upto(ps, i + 1) == before.push(field@));
            match parse_u8(&field) {
                None => {
                    proof {
                        lemma_fields_prefix(ps, i + 1, ps.len() as int);
                        assert(fields_upto(ps, i + 1)[before.len() as int] == field@);
                        assert(sport_fields(raw@)[before.len() as int] == field@);
                    }
                    return None;
                },
                Some(id) => {
                    let ghost old_ids = ids@;
                    ids.push(id);
                    assert forall|j: int| 0 <= j < ids@.len() implies is_u8_text(#[trigger] fields_upto(ps, i + 1)[j]) by {
                        if j < old_ids.len() {
                            assert(fields_upto(ps, i + 1)[j] == before[j]);
                        }
                    }
                    assert forall|j: int| 0 <= j < ids@.len() implies #[trigger] ids@[j] as int == digits_value(unsigned_part(fields_upto(ps, i + 1)[j])) by {
                        if j < old_ids.len() {
                            assert(fields_upto(ps, i + 1)[j] == before[j]);
                            assert(ids@[j] == old_ids[j]);
                        }
                    }
                },
            }
        }
        i = i + 1;
    }
    Some(ids)
}

} // verus!
