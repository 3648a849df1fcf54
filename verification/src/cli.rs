//! The text of a starting scale, `(left,top,right,bottom)`, taken apart into
//! the four numerals that it holds.

use vstd::prelude::*;

verus! {

/// Number of numerals in a starting scale.
pub const SCALE_FIELDS: usize = 4;

/// Whether `c` has the Unicode property White_Space.
pub uninterp spec fn is_white_space(c: char) -> bool;

/// `char::is_whitespace` of the standard library: true exactly for the
/// characters with the Unicode property White_Space. The property is named
/// here, not spelled out.
pub assume_specification[ char::is_whitespace ](c: char) -> (b: bool)
    ensures
        b == is_white_space(c),
;

/// What is taken off both ends of a text.
#[derive(Debug, Clone, Copy, PartialEq, Eq, Structural)]
pub enum Padding {
    /// Round brackets, opening and closing.
    Parentheses,
    /// Characters with the Unicode property White_Space.
    Whitespace,
}

impl Padding {
    /// Whether `c` is padding of this kind.
    pub open spec fn holds(self, c: char) -> bool {
        match self {
            Padding::Parentheses => c == '(' || c == ')',
            Padding::Whitespace => is_white_space(c),
        }
    }

    /// Tells whether `c` is padding of this kind.
    pub fn matches(self, c: char) -> (b: bool)
        ensures
            b == self.holds(c),
    {
        match self {
            Padding::Parentheses => c == '(' || c == ')',
            Padding::Whitespace => c.is_whitespace(),
        }
    }
}

/// How many characters at the start of `s` are padding.
pub open spec fn leading(s: Seq<char>, padding: Padding) -> nat
    decreases s.len(),
{
    if s.len() > 0 && padding.holds(s.first()) {
        1 + leading(s.drop_first(), padding)
    } else {
        0
    }
}

/// How many characters at the end of `s` are padding.
pub open spec fn trailing(s: Seq<char>, padding: Padding) -> nat
    decreases s.len(),
{
    if s.len() > 0 && padding.holds(s.last()) {
        1 + trailing(s.drop_last(), padding)
    } else {
        0
    }
}

/// `s` without the padding at its start and at its end.
pub open spec fn trimmed(s: Seq<char>, padding: Padding) -> Seq<char> {
    let rest = s.skip(leading(s, padding) as int);
    rest.take(rest.len() - trailing(rest, padding))
}

/// The pieces of `s` between the occurrences of `separator`: one more piece
/// than there are separators, each possibly empty.
pub open spec fn split(s: Seq<char>, separator: char) -> Seq<Seq<char>>
    decreases s.len(),
{
    if s.len() == 0 {
        seq![Seq::empty()]
    } else {
        let before = split(s.drop_last(), separator);
        if s.last() == separator {
            before.push(Seq::empty())
        } else {
            before.drop_last().push(before.last().push(s.last()))
        }
    }
}

/// The texts of a sequence of strings.
pub open spec fn texts(strings: Seq<String>) -> Seq<Seq<char>> {
    strings.map_values(|s: String| s@)
}

/// The fields of a starting scale: what stands between the commas, once the
/// brackets around the whole are gone.
pub open spec fn scale_fields(src: Seq<char>) -> Seq<Seq<char>> {
    split(trimmed(src, Padding::Parentheses), ',')
}

/// If the first `n` characters of `s` are padding and the next one, if there
/// is one, is not, then `s` has `n` leading padding characters.
proof fn lemma_leading(s: Seq<char>, padding: Padding, n: int)
    requires
        0 <= n <= s.len(),
        forall|k: int| 0 <= k < n ==> padding.holds(#[trigger] s[k]),
        n < s.len() ==> !padding.holds(s[n]),
    ensures
        leading(s, padding) == n,
    decreases n,
{
    if n > 0 {
        let rest = s.drop_first();
        assert forall|k: int| 0 <= k < n - 1 implies padding.holds(#[trigger] rest[k]) by {
            assert(rest[k] == s[k + 1]);
        }
        lemma_leading(rest, padding, n - 1);
    }
}

/// If the last `n` characters of `s` are padding and the one before them, if
/// there is one, is not, then `s` has `n` trailing padding characters.
proof fn lemma_trailing(s: Seq<char>, padding: Padding, n: int)
    requires
        0 <= n <= s.len(),
        forall|k: int| s.len() - n <= k < s.len() ==> padding.holds(#[trigger] s[k]),
        n < s.len() ==> !padding.holds(s[s.len() - n - 1]),
    ensures
        trailing(s, padding) == n,
    decreases n,
{
    if n > 0 {
        let rest = s.drop_last();
        assert forall|k: int| rest.len() - (n - 1) <= k < rest.len() implies padding.holds(
            #[trigger] rest[k],
        ) by {
            assert(rest[k] == s[k]);
        }
        lemma_trailing(rest, padding, n - 1);
    }
}

/// Takes the padding off both ends of `s`.
pub fn trim_padding<'a>(s: &'a str, padding: Padding) -> (r: &'a str)
    ensures
        r@ == trimmed(s@, padding),
{
    let len = s.unicode_len();
    let mut start: usize = 0;
    while start < len && padding.matches(s.get_char(start))
        invariant
            len == s@.len(),
            start <= len,
            forall|k: int| 0 <= k < start ==> padding.holds(#[trigger] s@[k]),
        decreases len - start,
    {
        start += 1;
    }
    let mut end: usize = len;
    while end > start && padding.matches(s.get_char(end - 1))
        invariant
            len == s@.len(),
            start <= end <= len,
            forall|k: int| end <= k < len ==> padding.holds(#[trigger] s@[k]),
        decreases end,
    {
        end -= 1;
    }
    proof {
        lemma_leading(s@, padding, start as int);
        let rest = s@.skip(start as int);
        assert forall|k: int| rest.len() - (len - end) <= k < rest.len() implies padding.holds(
            #[trigger] rest[k],
        ) by {
            assert(rest[k] == s@[k + start]);
        }
        lemma_trailing(rest, padding, len - end);
        assert(rest.take(rest.len() - (len - end)) =~= s@.subrange(start as int, end as int));
    }
    s.substring_char(start, end)
}

/// Takes `s` apart at every occurrence of `separator`.
pub fn split_at_separator(s: &str, separator: char) -> (pieces: Vec<String>)
    ensures
        texts(pieces@) == split(s@, separator),
{
    let len = s.unicode_len();
    let mut pieces: Vec<String> = Vec::new();
    let mut piece_start: usize = 0;
    let mut i: usize = 0;
    proof {
        assert(s@.take(0) =~= Seq::<char>::empty());
        assert(s@.subrange(0, 0) =~= Seq::<char>::empty());
        assert(texts(pieces@).push(Seq::<char>::empty()) =~= seq![Seq::<char>::empty()]);
    }
    while i < len
        invariant
            len == s@.len(),
            piece_start <= i <= len,
            split(s@.take(i as int), separator) == texts(pieces@).push(
                s@.subrange(piece_start as int, i as int),
            ),
        decreases len - i,
    {
        let c = s.get_char(i);
        proof {
            let upto = s@.take(i as int + 1);
            assert(upto.drop_last() =~= s@.take(i as int));
            assert(upto.last() == c);
            let before = split(s@.take(i as int), separator);
            assert(before.drop_last() =~= texts(pieces@));
            assert(before.last() == s@.subrange(piece_start as int, i as int));
        }
        if c == separator {
            let piece = s.substring_char(piece_start, i).to_owned();
            let ghost earlier = pieces@;
            pieces.push(piece);
            piece_start = i + 1;
            proof {
                assert(texts(pieces@) =~= texts(earlier).push(piece@));
                assert(s@.subrange(piece_start as int, i as int + 1) =~= Seq::<char>::empty());
            }
        } else {
            proof {
                assert(s@.subrange(piece_start as int, i as int + 1) =~= s@.subrange(
                    piece_start as int,
                    i as int,
                ).push(c));
            }
        }
        i += 1;
    }
    let piece = s.substring_char(piece_start, len).to_owned();
    let ghost earlier = pieces@;
    pieces.push(piece);
    proof {
        assert(s@.take(len as int) =~= s@);
        assert(texts(pieces@) =~= texts(earlier).push(piece@));
    }
    pieces
}

/// Why the text of a starting scale was turned down.
#[derive(Debug, PartialEq, Eq)]
pub enum ParseError {
    /// The text does not hold exactly `SCALE_FIELDS` fields.
    ElementCount,
    /// A field is no number: the field as it stood in the text, and what the
    /// parser of numbers said of it.
    InvalidNumber { substring: String, cause: String },
}

impl ParseError {
    /// The words in which the error is reported.
    pub open spec fn message_spec(self) -> Seq<char> {
        match self {
            ParseError::ElementCount => "must only have 4 elements"@,
            ParseError::InvalidNumber { substring, cause } => substring@ + ": Could not parse "@
                + cause@,
        }
    }

    /// The words in which the error is reported.
    pub fn message(&self) -> (text: String)
        ensures
            text@ == self.message_spec(),
    {
        match self {
            ParseError::ElementCount => "must only have 4 elements".to_owned(),
            ParseError::InvalidNumber { substring, cause } => {
                let mut text = substring.clone();
                text.append(": Could not parse ");
                text.append(cause.as_str());
                text
            },
        }
    }
}

/// Takes the text of a starting scale apart into its fields, as they stand
/// between the commas, and turns it down unless there are exactly
/// `SCALE_FIELDS` of them.
pub fn split_starting_scale(src: &str) -> (result: Result<Vec<String>, ParseError>)
    ensures
        result is Ok <==> scale_fields(src@).len() == SCALE_FIELDS,
        result matches Ok(fields) ==> texts(fields@) == scale_fields(src@),
        result matches Err(e) ==> e is ElementCount,
{
    let substrs = split_at_separator(trim_padding(src, Padding::Parentheses), ',');
    if substrs.len() != SCALE_FIELDS {
        return Err(ParseError::ElementCount);
    }
    Ok(substrs)
}

/// `outcome` is what `parse_number` can say of `field` once the white space
/// around it is gone.
pub open spec fn parses_to<T, F: Fn(&str) -> Result<T, String>>(
    parse_number: F,
    field: Seq<char>,
    outcome: Result<T, String>,
) -> bool {
    exists|numeral: &str|
        numeral@ == trimmed(field, Padding::Whitespace) && #[trigger] call_ensures(
            parse_number,
            (numeral,),
            outcome,
        )
}

/// `parse_number` can take `field` for a number.
pub open spec fn accepts<T, F: Fn(&str) -> Result<T, String>>(
    parse_number: F,
    field: Seq<char>,
) -> bool {
    exists|value: T| parses_to(parse_number, field, Ok::<T, String>(value))
}

/// Reads the four numbers of a starting scale, each with `parse_number`.
/// The first field that `parse_number` turns down ends the reading, and the
/// error names that field.
pub fn parse_starting_scale<T, F: Fn(&str) -> Result<T, String>>(src: &str, parse_number: F) -> (result:
    Result<Vec<T>, ParseError>)
    requires
        forall|numeral: &str| call_requires(parse_number, (numeral,)),
    ensures
        match result {
            Ok(values) => {
                &&& scale_fields(src@).len() == SCALE_FIELDS
                &&& values@.len() == SCALE_FIELDS
                &&& forall|i: int|
                    0 <= i < SCALE_FIELDS ==> parses_to(
                        parse_number,
                        scale_fields(src@)[i],
                        Ok::<T, String>(#[trigger] values@[i]),
                    )
            },
            Err(ParseError::ElementCount) => scale_fields(src@).len() != SCALE_FIELDS,
            Err(ParseError::InvalidNumber { substring, cause }) => {
                &&& scale_fields(src@).len() == SCALE_FIELDS
                &&& exists|i: int|
                    {
                        &&& 0 <= i < SCALE_FIELDS
                        &&& substring@ == #[trigger] scale_fields(src@)[i]
                        &&& parses_to(parse_number, scale_fields(src@)[i], Err::<T, String>(cause))
                        &&& forall|j: int|
                            0 <= j < i ==> accepts::<T, F>(
                                parse_number,
                                #[trigger] scale_fields(src@)[j],
                            )
                    }
            },
        },
{
    let substrs = match split_starting_scale(src) {
        Ok(substrs) => substrs,
        Err(e) => {
            return Err(ParseError::ElementCount);
        },
    };
    let mut values: Vec<T> = Vec::new();
    let mut i: usize = 0;
    while i < SCALE_FIELDS
        invariant
            i <= SCALE_FIELDS,
            substrs@.len() == SCALE_FIELDS,
            texts(substrs@) == scale_fields(src@),
            values@.len() == i,
            forall|numeral: &str| call_requires(parse_number, (numeral,)),
            forall|j: int|
                0 <= j < i ==> parses_to(
                    parse_number,
                    scale_fields(src@)[j],
                    Ok::<T, String>(#[trigger] values@[j]),
                ),
        decreases SCALE_FIELDS - i,
    {
        let substr = &substrs[i];
        assert(substr@ == texts(substrs@)[i as int]);
        let numeral = trim_padding(substr.as_str(), Padding::Whitespace);
        let outcome = parse_number(numeral);
        assert(parses_to(parse_number, scale_fields(src@)[i as int], outcome));
        match outcome {
            Ok(value) => {
                values.push(value);
            },
            Err(cause) => {
                let substring = substr.clone();
                proof {
                    assert forall|j: int| 0 <= j < i implies accepts::<T, F>(
                        parse_number,
                        #[trigger] scale_fields(src@)[j],
                    ) by {
                        assert(parses_to(
                            parse_number,
                            scale_fields(src@)[j],
                            Ok::<T, String>(values@[j]),
                        ));
                    }
                    assert(substring@ == scale_fields(src@)[i as int]);
                }
                return Err(ParseError::InvalidNumber { substring, cause });
            },
        }
        i += 1;
    }
    Ok(values)
}

} // verus!
