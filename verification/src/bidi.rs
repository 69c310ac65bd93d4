//! The bridge from this library's bidirectional-class property data to
//! the class type the `unicode_bidi` crate's algorithm consumes.

use vstd::prelude::*;

verus! {

/// Relies on `unicode_bidi::BidiClass`: the bidirectional character
/// type, a plain field-less enum whose variants verified code may name
/// and match on once the type is declared here.
#[verifier::external_type_specification]
pub struct ExBidiClass(unicode_bidi::BidiClass);

/// A bidirectional-class property value, carried as its numeric
/// identifier: 0 `LeftToRight` through 22 `PopDirectionalIsolate`.
#[derive(Clone, Copy, Debug, PartialEq, Eq, Structural)]
pub struct BidiClassValue(pub u8);

/// One row of a code-point map: an inclusive range of code points and
/// the property value they map to.
#[derive(Clone, Copy, Debug, PartialEq, Eq, Structural)]
pub struct CodePointMapRange {
    /// First code point of the range.
    pub start: u32,
    /// Last code point of the range, inclusive.
    pub end: u32,
    /// The property value of every code point in the range.
    pub value: BidiClassValue,
}

/// The value of the first range containing `c`, or `OtherNeutral` (10)
/// when no range does.
pub open spec fn spec_lookup(ranges: Seq<CodePointMapRange>, c: u32) -> BidiClassValue
    decreases ranges.len(),
{
    if ranges.len() == 0 {
        BidiClassValue(10)
    } else if ranges[0].start <= c && c <= ranges[0].end {
        ranges[0].value
    } else {
        spec_lookup(ranges.skip(1), c)
    }
}

/// A borrowed code-point map: range rows searched first to last.
#[derive(Clone, Copy)]
pub struct CodePointMapDataBorrowed<'a> {
    ranges: &'a [CodePointMapRange],
}

impl<'a> CodePointMapDataBorrowed<'a> {
    /// A map over the given range rows.
    pub fn from_ranges(ranges: &'a [CodePointMapRange]) -> (r: Self)
        ensures
            r.spec_ranges() == ranges@,
    {
        CodePointMapDataBorrowed { ranges }
    }

    /// The map's range rows.
    pub closed spec fn spec_ranges(self) -> Seq<CodePointMapRange> {
        self.ranges@
    }

    /// The property value of the code point `c`.
    pub fn get(&self, c: char) -> (r: BidiClassValue)
        ensures
            r == spec_lookup(self.spec_ranges(), c as u32),
    {
        let code = c as u32;
        let n = self.ranges.len();
        let mut i: usize = 0;
        proof {
            assert(self.ranges@.skip(0) =~= self.ranges@);
        }
        while i < n
            invariant
                code == c as u32,
                n == self.ranges@.len(),
                0 <= i <= n,
                spec_lookup(self.ranges@, code) == spec_lookup(self.ranges@.skip(i as int), code),
            decreases n - i,
        {
            let row = *vstd::slice::slice_index_get(self.ranges, i);
            proof {
                assert(self.ranges@.skip(i as int)[0] == self.ranges@[i as int]);
            }
            if row.start <= code && code <= row.end {
                proof {
                    let s = self.ranges@.skip(i as int);
                    assert(s.len() == n - i);
                    assert(spec_lookup(s, code) == row.value);
                }
                return row.value;
            }
            proof {
                assert(self.ranges@.skip(i as int).skip(1) =~= self.ranges@.skip(i as int + 1));
            }
            i = i + 1;
        }
        BidiClassValue(10)
    }
}

/// The `unicode_bidi` class that stands for a property value of this
/// library: the 23 named classes by their numeric identifiers, and
/// `ON` (other neutral) for any identifier outside them.
pub open spec fn spec_data_source_class(b: BidiClassValue) -> unicode_bidi::BidiClass {
    if b.0 == 0 {
        unicode_bidi::BidiClass::L
    } else if b.0 == 1 {
        unicode_bidi::BidiClass::R
    } else if b.0 == 2 {
        unicode_bidi::BidiClass::EN
    } else if b.0 == 3 {
        unicode_bidi::BidiClass::ES
    } else if b.0 == 4 {
        unicode_bidi::BidiClass::ET
    } else if b.0 == 5 {
        unicode_bidi::BidiClass::AN
    } else if b.0 == 6 {
        unicode_bidi::BidiClass::CS
    } else if b.0 == 7 {
        unicode_bidi::BidiClass::B
    } else if b.0 == 8 {
        unicode_bidi::BidiClass::S
    } else if b.0 == 9 {
        unicode_bidi::BidiClass::WS
    } else if b.0 == 10 {
        unicode_bidi::BidiClass::ON
    } else if b.0 == 11 {
        unicode_bidi::BidiClass::LRE
    } else if b.0 == 12 {
        unicode_bidi::BidiClass::LRO
    } else if b.0 == 13 {
        unicode_bidi::BidiClass::AL
    } else if b.0 == 14 {
        unicode_bidi::BidiClass::RLE
    } else if b.0 == 15 {
        unicode_bidi::BidiClass::RLO
    } else if b.0 == 16 {
        unicode_bidi::BidiClass::PDF
    } else if b.0 == 17 {
        unicode_bidi::BidiClass::NSM
    } else if b.0 == 18 {
        unicode_bidi::BidiClass::BN
    } else if b.0 == 19 {
        unicode_bidi::BidiClass::FSI
    } else if b.0 == 20 {
        unicode_bidi::BidiClass::LRI
    } else if b.0 == 21 {
        unicode_bidi::BidiClass::RLI
    } else if b.0 == 22 {
        unicode_bidi::BidiClass::PDI
    } else {
        unicode_bidi::BidiClass::ON
    }
}

/// An adapter that serves this library's bidirectional-class data to
/// the `unicode_bidi` crate's algorithm.
#[derive(Clone, Copy)]
pub struct BidiClassAdapter<'a> {
    data: CodePointMapDataBorrowed<'a>,
}

impl<'a> BidiClassAdapter<'a> {
    /// An adapter over the given code-point map.
    pub fn new(data: CodePointMapDataBorrowed<'a>) -> (r: BidiClassAdapter<'a>)
        ensures
            r.spec_data() == data,
    {
        BidiClassAdapter { data }
    }

    /// The code-point map the adapter serves.
    pub closed spec fn spec_data(self) -> CodePointMapDataBorrowed<'a> {
        self.data
    }

    /// The `unicode_bidi` class of the character `c`: its property
    /// value under the adapter's map, carried over class by class.
    pub fn bidi_class(&self, c: char) -> (r: unicode_bidi::BidiClass)
        ensures
            r == spec_data_source_class(spec_lookup(self.spec_data().spec_ranges(), c as u32)),
    {
        let bidi_class = self.data.get(c);
        if bidi_class.0 == 0 {
            unicode_bidi::BidiClass::L
        } else if bidi_class.0 == 1 {
            unicode_bidi::BidiClass::R
        } else if bidi_class.0 == 2 {
            unicode_bidi::BidiClass::EN
        } else if bidi_class.0 == 3 {
            unicode_bidi::BidiClass::ES
        } else if bidi_class.0 == 4 {
            unicode_bidi::BidiClass::ET
        } else if bidi_class.0 == 5 {
            unicode_bidi::BidiClass::AN
        } else if bidi_class.0 == 6 {
            unicode_bidi::BidiClass::CS
        } else if bidi_class.0 == 7 {
            unicode_bidi::BidiClass::B
        } else if bidi_class.0 == 8 {
            unicode_bidi::BidiClass::S
        } else if bidi_class.0 == 9 {
            unicode_bidi::BidiClass::WS
        } else if bidi_class.0 == 10 {
            unicode_bidi::BidiClass::ON
        } else if bidi_class.0 == 11 {
            unicode_bidi::BidiClass::LRE
        } else if bidi_class.0 == 12 {
            unicode_bidi::BidiClass::LRO
        } else if bidi_class.0 == 13 {
            unicode_bidi::BidiClass::AL
        } else if bidi_class.0 == 14 {
            unicode_bidi::BidiClass::RLE
        } else if bidi_class.0 == 15 {
            unicode_bidi::BidiClass::RLO
        } else if bidi_class.0 == 16 {
            unicode_bidi::BidiClass::PDF
        } else if bidi_class.0 == 17 {
            unicode_bidi::BidiClass::NSM
        } else if bidi_class.0 == 18 {
            unicode_bidi::BidiClass::BN
        } else if bidi_class.0 == 19 {
            unicode_bidi::BidiClass::FSI
        } else if bidi_class.0 == 20 {
            unicode_bidi::BidiClass::LRI
        } else if bidi_class.0 == 21 {
            unicode_bidi::BidiClass::RLI
        } else if bidi_class.0 == 22 {
            unicode_bidi::BidiClass::PDI
        } else {
            // This identifier names no class; fall back to neutral.
            unicode_bidi::BidiClass::ON
        }
    }
}

} // verus!
