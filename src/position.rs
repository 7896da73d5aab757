use vstd::prelude::*;

use crate::error::GeoError;

verus! {

/// A longitude / latitude pair with an optional altitude.
///
/// The coordinate scalar `C` is left to the caller; the codec only moves
/// coordinates around and never computes with them.
#[derive(Debug, Clone, Copy, PartialEq)]
pub struct Position<C> {
    pub longitude: C,
    pub latitude: C,
    pub altitude: Option<C>,
}

impl<C: Copy> Position<C> {
    /// The compact array form: `[lon, lat]`, or `[lon, lat, alt]` when an
    /// altitude is present.
    pub open spec fn components(self) -> Seq<C> {
        match self.altitude {
            Some(alt) => seq![self.longitude, self.latitude, alt],
            None => seq![self.longitude, self.latitude],
        }
    }

    /// What decoding an array of scalars yields: two or three components
    /// make a position, any other length is rejected.
    pub open spec fn from_components(s: Seq<C>) -> Result<Position<C>, GeoError> {
        if s.len() == 2 {
            Ok(Position { longitude: s[0], latitude: s[1], altitude: None })
        } else if s.len() == 3 {
            Ok(Position { longitude: s[0], latitude: s[1], altitude: Some(s[2]) })
        } else {
            Err(GeoError::MalformedPosition { found_length: s.len() as usize })
        }
    }

    /// Encodes the position as its compact array form.
    pub fn encode(&self) -> (r: Vec<C>)
        ensures
            r@ == self.components(),
            2 <= r@.len() <= 3,
    {
        let mut r: Vec<C> = Vec::new();
        r.push(self.longitude);
        r.push(self.latitude);
        if let Some(alt) = self.altitude {
            r.push(alt);
        }
        r
    }

    /// Decodes a position from its compact array form, in order: longitude,
    /// latitude, then altitude if a third element is present.
    pub fn decode(s: &[C]) -> (r: Result<Position<C>, GeoError>)
        ensures
            r == Self::from_components(s@),
            r is Ok <==> (s@.len() == 2 || s@.len() == 3),
    {
        let n = s.len();
        if n == 2 {
            Ok(Position { longitude: s[0], latitude: s[1], altitude: None })
        } else if n == 3 {
            Ok(Position { longitude: s[0], latitude: s[1], altitude: Some(s[2]) })
        } else {
            Err(GeoError::MalformedPosition { found_length: n })
        }
    }
}

impl<C: Copy> From<(C, C)> for Position<C> {
    /// A position without altitude from `(longitude, latitude)`.
    fn from(coords: (C, C)) -> (r: Position<C>) {
        Position { longitude: coords.0, latitude: coords.1, altitude: None }
    }
}

impl<C: Copy> vstd::std_specs::convert::FromSpecImpl<(C, C)> for Position<C> {
    open spec fn obeys_from_spec() -> bool {
        true
    }

    open spec fn from_spec(coords: (C, C)) -> Position<C> {
        Position { longitude: coords.0, latitude: coords.1, altitude: None }
    }
}

impl<C: Copy> From<(C, C, C)> for Position<C> {
    /// A position with altitude from `(longitude, latitude, altitude)`.
    fn from(coords: (C, C, C)) -> (r: Position<C>) {
        Position { longitude: coords.0, latitude: coords.1, altitude: Some(coords.2) }
    }
}

impl<C: Copy> vstd::std_specs::convert::FromSpecImpl<(C, C, C)> for Position<C> {
    open spec fn obeys_from_spec() -> bool {
        true
    }

    open spec fn from_spec(coords: (C, C, C)) -> Position<C> {
        Position { longitude: coords.0, latitude: coords.1, altitude: Some(coords.2) }
    }
}

/// Decoding what encoding produced gives back the same position, altitude
/// presence included.
pub proof fn lemma_decode_encode<C: Copy>(p: Position<C>)
    ensures
        Position::from_components(p.components()) == Ok::<Position<C>, GeoError>(p),
{
}

/// A successful decode is lossless: encoding the decoded position gives back
/// exactly the array that was decoded.
pub proof fn lemma_encode_decode<C: Copy>(s: Seq<C>)
    requires
        Position::from_components(s) is Ok,
    ensures
        Position::from_components(s)->Ok_0.components() == s,
{
    assert(Position::from_components(s)->Ok_0.components() =~= s);
}

} // verus!
