use vstd::prelude::*;

use crate::error::GeoError;
use crate::position::Position;

verus! {

/// The nested arrays of scalars that a geometry's `coordinates` member holds
/// in its external form.
#[derive(Debug)]
pub enum Coordinates<C> {
    Number(C),
    Array(Vec<Coordinates<C>>),
}

/// Decodes each element of `s` in order with `f`, stopping at the first
/// element that fails and reporting its error.
pub open spec fn decode_each<A, B>(
    s: Seq<A>,
    f: spec_fn(A) -> Result<B, GeoError>,
) -> Result<Seq<B>, GeoError>
    decreases s.len(),
{
    if s.len() == 0 {
        Ok(Seq::empty())
    } else {
        match decode_each(s.drop_last(), f) {
            Err(e) => Err(e),
            Ok(done) => match f(s.last()) {
                Err(e) => Err(e),
                Ok(b) => Ok(done.push(b)),
            },
        }
    }
}

/// Once a prefix has failed, the whole sequence fails with the same error.
pub proof fn lemma_decode_each_prefix_fails<A, B>(
    s: Seq<A>,
    f: spec_fn(A) -> Result<B, GeoError>,
    k: int,
)
    requires
        0 <= k <= s.len(),
        decode_each(s.subrange(0, k), f) is Err,
    ensures
        decode_each(s, f) == decode_each(s.subrange(0, k), f),
    decreases s.len() - k,
{
    if k < s.len() {
        assert(s.subrange(0, k + 1).drop_last() =~= s.subrange(0, k));
        lemma_decode_each_prefix_fails(s, f, k + 1);
    } else {
        assert(s.subrange(0, k) =~= s);
    }
}

/// The scalars of an array whose elements are all scalars.
pub open spec fn scalars_of<C>(items: Seq<Coordinates<C>>) -> Option<Seq<C>> {
    if forall|i: int| 0 <= i < items.len() ==> #[trigger] items[i] is Number {
        Some(items.map_values(|x: Coordinates<C>| x->Number_0))
    } else {
        None
    }
}

/// A position: an array of two or three scalars.
pub open spec fn position_of<C: Copy>(c: Coordinates<C>) -> Result<Position<C>, GeoError> {
    match c {
        Coordinates::Number(_) => Err(GeoError::MalformedStructure),
        Coordinates::Array(items) => match scalars_of(items@) {
            None => Err(GeoError::MalformedStructure),
            Some(s) => Position::from_components(s),
        },
    }
}

pub open spec fn position_decoder<C: Copy>() -> spec_fn(Coordinates<C>) -> Result<Position<C>, GeoError> {
    |c: Coordinates<C>| position_of(c)
}

/// An array of positions.
pub open spec fn positions_of<C: Copy>(c: Coordinates<C>) -> Result<Seq<Position<C>>, GeoError> {
    match c {
        Coordinates::Number(_) => Err(GeoError::MalformedStructure),
        Coordinates::Array(items) => decode_each(items@, position_decoder()),
    }
}

pub open spec fn positions_decoder<C: Copy>() -> spec_fn(Coordinates<C>) -> Result<Seq<Position<C>>, GeoError> {
    |c: Coordinates<C>| positions_of(c)
}

/// An array of arrays of positions.
pub open spec fn position_lists_of<C: Copy>(c: Coordinates<C>) -> Result<Seq<Seq<Position<C>>>, GeoError> {
    match c {
        Coordinates::Number(_) => Err(GeoError::MalformedStructure),
        Coordinates::Array(items) => decode_each(items@, positions_decoder()),
    }
}

pub open spec fn position_lists_decoder<C: Copy>() -> spec_fn(Coordinates<C>) -> Result<Seq<Seq<Position<C>>>, GeoError> {
    |c: Coordinates<C>| position_lists_of(c)
}

/// An array of arrays of arrays of positions.
pub open spec fn position_grids_of<C: Copy>(c: Coordinates<C>) -> Result<Seq<Seq<Seq<Position<C>>>>, GeoError> {
    match c {
        Coordinates::Number(_) => Err(GeoError::MalformedStructure),
        Coordinates::Array(items) => decode_each(items@, position_lists_decoder()),
    }
}

/// The model of a list of lists of positions.
pub open spec fn lists_view<C>(v: Seq<Vec<Position<C>>>) -> Seq<Seq<Position<C>>> {
    v.map_values(|l: Vec<Position<C>>| l@)
}

/// The model of a list of lists of lists of positions.
pub open spec fn grids_view<C>(v: Seq<Vec<Vec<Position<C>>>>) -> Seq<Seq<Seq<Position<C>>>> {
    v.map_values(|g: Vec<Vec<Position<C>>>| lists_view(g@))
}

/// Decodes a position from an array of two or three scalars.
pub fn decode_position<C: Copy>(c: &Coordinates<C>) -> (r: Result<Position<C>, GeoError>)
    ensures
        r == position_of(*c),
{
    match c {
        Coordinates::Number(_) => Err(GeoError::MalformedStructure),
        Coordinates::Array(items) => {
            let mut scalars: Vec<C> = Vec::new();
            let mut i: usize = 0;
            while i < items.len()
                invariant
                    *c == Coordinates::Array(*items),
                    0 <= i <= items@.len(),
                    scalars@.len() == i,
                    forall|j: int| 0 <= j < i ==> #[trigger] items@[j] is Number && scalars@[j]
                        == items@[j]->Number_0,
                decreases items@.len() - i,
            {
                match &items[i] {
                    Coordinates::Number(x) => {
                        scalars.push(*x);
                    },
                    Coordinates::Array(_) => {
                        assert(!(items@[i as int] is Number));
                        assert(scalars_of(items@) is None);
                        return Err(GeoError::MalformedStructure);
                    },
                }
                i += 1;
            }
            assert(scalars@ =~= items@.map_values(|x: Coordinates<C>| x->Number_0));
            Position::decode(scalars.as_slice())
        },
    }
}

/// Decodes an array of positions, failing with the first element's error.
pub fn decode_positions<C: Copy>(c: &Coordinates<C>) -> (r: Result<Vec<Position<C>>, GeoError>)
    ensures
        match r {
            Ok(v) => positions_of(*c) == Ok::<Seq<Position<C>>, GeoError>(v@),
            Err(e) => positions_of(*c) == Err::<Seq<Position<C>>, GeoError>(e),
        },
{
    match c {
        Coordinates::Number(_) => Err(GeoError::MalformedStructure),
        Coordinates::Array(items) => {
            let mut out: Vec<Position<C>> = Vec::new();
            let mut i: usize = 0;
            while i < items.len()
                invariant
                    *c == Coordinates::Array(*items),
                    0 <= i <= items@.len(),
                    decode_each(items@.subrange(0, i as int), position_decoder()) == Ok::<
                        Seq<Position<C>>,
                        GeoError,
                    >(out@),
                decreases items@.len() - i,
            {
                let ghost prefix = items@.subrange(0, i as int + 1);
                assert(prefix.drop_last() =~= items@.subrange(0, i as int));
                assert(prefix.last() == items@[i as int]);
                match decode_position(&items[i]) {
                    Ok(p) => {
                        out.push(p);
                    },
                    Err(e) => {
                        proof {
                            lemma_decode_each_prefix_fails(items@, position_decoder(), i as int + 1);
                        }
                        return Err(e);
                    },
                }
                i += 1;
            }
            assert(items@.subrange(0, items@.len() as int) =~= items@);
            Ok(out)
        },
    }
}

/// Decodes an array of arrays of positions, failing with the first error.
pub fn decode_position_lists<C: Copy>(c: &Coordinates<C>) -> (r: Result<
    Vec<Vec<Position<C>>>,
    GeoError,
>)
    ensures
        match r {
            Ok(v) => position_lists_of(*c) == Ok::<Seq<Seq<Position<C>>>, GeoError>(lists_view(v@)),
            Err(e) => position_lists_of(*c) == Err::<Seq<Seq<Position<C>>>, GeoError>(e),
        },
{
    match c {
        Coordinates::Number(_) => Err(GeoError::MalformedStructure),
        Coordinates::Array(items) => {
            let mut out: Vec<Vec<Position<C>>> = Vec::new();
            let mut i: usize = 0;
            assert(lists_view(out@) =~= Seq::empty());
            while i < items.len()
                invariant
                    *c == Coordinates::Array(*items),
                    0 <= i <= items@.len(),
                    decode_each(items@.subrange(0, i as int), positions_decoder()) == Ok::<
                        Seq<Seq<Position<C>>>,
                        GeoError,
                    >(lists_view(out@)),
                decreases items@.len() - i,
            {
                let ghost prefix = items@.subrange(0, i as int + 1);
                assert(prefix.drop_last() =~= items@.subrange(0, i as int));
                assert(prefix.last() == items@[i as int]);
                match decode_positions(&items[i]) {
                    Ok(p) => {
                        let ghost before = out@;
                        out.push(p);
                        assert(lists_view(out@) =~= lists_view(before).push(p@));
                    },
                    Err(e) => {
                        proof {
                            lemma_decode_each_prefix_fails(items@, positions_decoder(), i as int + 1);
                        }
                        return Err(e);
                    },
                }
                i += 1;
            }
            assert(items@.subrange(0, items@.len() as int) =~= items@);
            Ok(out)
        },
    }
}

/// Decodes an array of arrays of arrays of positions, failing with the first
/// error.
pub fn decode_position_grids<C: Copy>(c: &Coordinates<C>) -> (r: Result<
    Vec<Vec<Vec<Position<C>>>>,
    GeoError,
>)
    ensures
        match r {
            Ok(v) => position_grids_of(*c) == Ok::<Seq<Seq<Seq<Position<C>>>>, GeoError>(
                grids_view(v@),
            ),
            Err(e) => position_grids_of(*c) == Err::<Seq<Seq<Seq<Position<C>>>>, GeoError>(e),
        },
{
    match c {
        Coordinates::Number(_) => Err(GeoError::MalformedStructure),
        Coordinates::Array(items) => {
            let mut out: Vec<Vec<Vec<Position<C>>>> = Vec::new();
            let mut i: usize = 0;
            assert(grids_view(out@) =~= Seq::empty());
            while i < items.len()
                invariant
                    *c == Coordinates::Array(*items),
                    0 <= i <= items@.len(),
                    decode_each(items@.subrange(0, i as int), position_lists_decoder()) == Ok::<
                        Seq<Seq<Seq<Position<C>>>>,
                        GeoError,
                    >(grids_view(out@)),
                decreases items@.len() - i,
            {
                let ghost prefix = items@.subrange(0, i as int + 1);
                assert(prefix.drop_last() =~= items@.subrange(0, i as int));
                assert(prefix.last() == items@[i as int]);
                match decode_position_lists(&items[i]) {
                    Ok(p) => {
                        let ghost before = out@;
                        out.push(p);
                        assert(grids_view(out@) =~= grids_view(before).push(lists_view(p@)));
                    },
                    Err(e) => {
                        proof {
                            lemma_decode_each_prefix_fails(
                                items@,
                                position_lists_decoder(),
                                i as int + 1,
                            );
                        }
                        return Err(e);
                    },
                }
                i += 1;
            }
            assert(items@.subrange(0, items@.len() as int) =~= items@);
            Ok(out)
        },
    }
}

/// The compact array form of a position as a coordinate tree.
pub fn encode_position<C: Copy>(p: &Position<C>) -> (r: Coordinates<C>)
    ensures
        position_of(r) == Ok::<Position<C>, GeoError>(*p),
{
    let scalars = p.encode();
    let mut items: Vec<Coordinates<C>> = Vec::new();
    let mut i: usize = 0;
    while i < scalars.len()
        invariant
            scalars@ == p.components(),
            0 <= i <= scalars@.len(),
            items@.len() == i,
            forall|j: int| 0 <= j < i ==> #[trigger] items@[j] == Coordinates::Number(scalars@[j]),
        decreases scalars@.len() - i,
    {
        items.push(Coordinates::Number(scalars[i]));
        i += 1;
    }
    proof {
        assert(items@.map_values(|x: Coordinates<C>| x->Number_0) =~= scalars@);
        crate::position::lemma_decode_encode(*p);
    }
    Coordinates::Array(items)
}

/// The coordinate tree of an array of positions.
pub fn encode_positions<C: Copy>(v: &Vec<Position<C>>) -> (r: Coordinates<C>)
    ensures
        positions_of(r) == Ok::<Seq<Position<C>>, GeoError>(v@),
{
    let mut items: Vec<Coordinates<C>> = Vec::new();
    let mut i: usize = 0;
    assert(v@.subrange(0, 0) =~= Seq::empty());
    assert(lists_view(Seq::<Vec<Position<C>>>::empty()) =~= Seq::empty());
    assert(grids_view(Seq::<Vec<Vec<Position<C>>>>::empty()) =~= Seq::empty());
    while i < v.len()
        invariant
            0 <= i <= v@.len(),
            items@.len() == i,
            decode_each(items@, position_decoder()) == Ok::<Seq<Position<C>>, GeoError>(
                v@.subrange(0, i as int),
            ),
        decreases v@.len() - i,
    {
        let c = encode_position(&v[i]);
        let ghost before = items@;
        items.push(c);
        assert(items@.drop_last() == before);
        assert(v@.subrange(0, i as int + 1) =~= v@.subrange(0, i as int).push(v@[i as int]));
        i += 1;
    }
    assert(v@.subrange(0, v@.len() as int) =~= v@);
    Coordinates::Array(items)
}

/// The coordinate tree of an array of arrays of positions.
pub fn encode_position_lists<C: Copy>(v: &Vec<Vec<Position<C>>>) -> (r: Coordinates<C>)
    ensures
        position_lists_of(r) == Ok::<Seq<Seq<Position<C>>>, GeoError>(lists_view(v@)),
{
    let mut items: Vec<Coordinates<C>> = Vec::new();
    let mut i: usize = 0;
    assert(v@.subrange(0, 0) =~= Seq::empty());
    assert(lists_view(Seq::<Vec<Position<C>>>::empty()) =~= Seq::empty());
    assert(grids_view(Seq::<Vec<Vec<Position<C>>>>::empty()) =~= Seq::empty());
    while i < v.len()
        invariant
            0 <= i <= v@.len(),
            items@.len() == i,
            decode_each(items@, positions_decoder()) == Ok::<Seq<Seq<Position<C>>>, GeoError>(
                lists_view(v@.subrange(0, i as int)),
            ),
        decreases v@.len() - i,
    {
        let c = encode_positions(&v[i]);
        let ghost before = items@;
        items.push(c);
        assert(items@.drop_last() == before);
        assert(lists_view(v@.subrange(0, i as int + 1)) =~= lists_view(
            v@.subrange(0, i as int),
        ).push(v@[i as int]@));
        i += 1;
    }
    assert(v@.subrange(0, v@.len() as int) =~= v@);
    Coordinates::Array(items)
}

/// The coordinate tree of an array of arrays of arrays of positions.
pub fn encode_position_grids<C: Copy>(v: &Vec<Vec<Vec<Position<C>>>>) -> (r: Coordinates<C>)
    ensures
        position_grids_of(r) == Ok::<Seq<Seq<Seq<Position<C>>>>, GeoError>(grids_view(v@)),
{
    let mut items: Vec<Coordinates<C>> = Vec::new();
    let mut i: usize = 0;
    assert(v@.subrange(0, 0) =~= Seq::empty());
    assert(lists_view(Seq::<Vec<Position<C>>>::empty()) =~= Seq::empty());
    assert(grids_view(Seq::<Vec<Vec<Position<C>>>>::empty()) =~= Seq::empty());
    while i < v.len()
        invariant
            0 <= i <= v@.len(),
            items@.len() == i,
            decode_each(items@, position_lists_decoder()) == Ok::<
                Seq<Seq<Seq<Position<C>>>>,
                GeoError,
            >(grids_view(v@.subrange(0, i as int))),
        decreases v@.len() - i,
    {
        let c = encode_position_lists(&v[i]);
        let ghost before = items@;
        items.push(c);
        assert(items@.drop_last() == before);
        assert(grids_view(v@.subrange(0, i as int + 1)) =~= grids_view(
            v@.subrange(0, i as int),
        ).push(lists_view(v@[i as int]@)));
        i += 1;
    }
    assert(v@.subrange(0, v@.len() as int) =~= v@);
    Coordinates::Array(items)
}

} // verus!
