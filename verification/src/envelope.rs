//! Decoding the request envelope and rendering the response envelope.
//!
//! A submitted call carries one JSON text that is either a single request
//! object or an array of request objects. Decoding splits the text into
//! the texts of its units and requires each unit to name its method; a
//! text that fails either step is malformed as a whole. The response side
//! renders an ordered batch of response texts as one JSON array text.
//!
//! The split of a JSON text into unit texts and the lookup of a unit's
//! method are done by `serde_json` behind trusted wrappers; everything
//! around them is verified.
use vstd::prelude::*;

verus! {

/// What `serde_json` yields when `s` is parsed and split into the texts of
/// its top-level units: `None` when `s` is not valid JSON, the texts of the
/// elements when it is an array, and `s`'s own single unit text otherwise.
/// A pure function of the text alone.
pub uninterp spec fn envelope_units(s: Seq<char>) -> Option<Seq<Seq<char>>>;

/// Whether `serde_json` parses `s` as a JSON array. A pure function of
/// the text alone.
pub uninterp spec fn parses_as_array(s: Seq<char>) -> bool;

/// What `serde_json` yields as the `"method"` member of the JSON object
/// written in `s`: `None` when `s` is not a JSON object or has no string
/// `"method"` member. A pure function of the text alone.
pub uninterp spec fn method_text(s: Seq<char>) -> Option<Seq<char>>;

/// Relies on `serde_json::from_str::<Value>` and `serde_json::to_string`:
/// parsing is a pure function of the text, an array is split into its
/// elements, and any other JSON value is a one-unit envelope — so a text
/// that is not an array and splits at all splits into exactly one unit.
#[verifier::external_body]
fn split_envelope(query: &str) -> (r: Option<Vec<String>>)
    ensures
        match r {
            Option::None => envelope_units(query@) is None,
            Option::Some(us) => envelope_units(query@) == Option::Some(
                us@.map_values(|u: String| u@),
            ) && (!parses_as_array(query@) ==> us@.len() == 1),
        },
{
    match serde_json::from_str::<serde_json::Value>(query) {
        Ok(serde_json::Value::Array(items)) => {
            let mut out: Vec<String> = Vec::with_capacity(items.len());
            for item in items {
                out.push(serde_json::to_string(&item).ok()?);
            }
            Some(out)
        },
        Ok(other) => Some(vec![serde_json::to_string(&other).ok()?]),
        Err(_) => None,
    }
}

/// Relies on `serde_json::from_str::<Value>`, `Value::get` and
/// `Value::as_str`: the `"method"` member of a JSON object text, a pure
/// function of the text.
#[verifier::external_body]
fn method_of_text(unit: &str) -> (r: Option<String>)
    ensures
        match r {
            Option::None => method_text(unit@) is None,
            Option::Some(m) => method_text(unit@) == Option::Some(m@),
        },
{
    match serde_json::from_str::<serde_json::Value>(unit) {
        Ok(value) => match value.get("method") {
            Some(member) => member.as_str().map(|s| s.to_string()),
            None => None,
        },
        Err(_) => None,
    }
}

/// One decoded request unit: the method it routes to, and the unit's own
/// JSON text, carried opaquely to the request engine.
pub struct RequestUnit {
    pub method: String,
    pub raw: String,
}

/// The mathematical value of a request unit.
pub struct RequestUnitModel {
    pub method: Seq<char>,
    pub raw: Seq<char>,
}

impl View for RequestUnit {
    type V = RequestUnitModel;

    open spec fn view(&self) -> RequestUnitModel {
        RequestUnitModel { method: self.method@, raw: self.raw@ }
    }
}

/// Every unit text of the envelope names a method.
pub open spec fn units_well_formed(us: Seq<Seq<char>>) -> bool {
    forall|i: int| 0 <= i < us.len() ==> (#[trigger] method_text(us[i])) is Some
}

/// The unit a well-formed unit text decodes to.
pub open spec fn unit_model(u: Seq<char>) -> RequestUnitModel
    recommends
        method_text(u) is Some,
{
    RequestUnitModel { method: method_text(u)->0, raw: u }
}

/// What decoding an envelope text yields: the ordered units when the text
/// is valid JSON and every unit names a method, and nothing otherwise.
pub open spec fn decode_spec(q: Seq<char>) -> Option<Seq<RequestUnitModel>> {
    match envelope_units(q) {
        Option::None => Option::None,
        Option::Some(us) => if units_well_formed(us) {
            Option::Some(us.map_values(|u: Seq<char>| unit_model(u)))
        } else {
            Option::None
        },
    }
}

/// Decode a submitted envelope text into its ordered request units.
/// A text that is not valid JSON, or any unit of which does not name a
/// method, is rejected as a whole. A single (non-array) envelope that
/// decodes at all decodes to exactly one unit: it is treated as its own
/// one-element batch.
pub fn decode_envelope(query: &str) -> (r: Option<Vec<RequestUnit>>)
    ensures
        match r {
            Option::None => decode_spec(query@) is None,
            Option::Some(units) => decode_spec(query@) == Option::Some(
                units@.map_values(|u: RequestUnit| u@),
            ) && (!parses_as_array(query@) ==> units@.len() == 1),
        },
{
    let texts: Vec<String> = match split_envelope(query) {
        Option::Some(texts) => texts,
        Option::None => {
            return Option::None;
        },
    };
    let ghost unit_texts: Seq<Seq<char>> = texts@.map_values(|u: String| u@);
    let mut units: Vec<RequestUnit> = Vec::new();
    let mut i: usize = 0;
    while i < texts.len()
        invariant
            0 <= i <= texts.len(),
            envelope_units(query@) == Option::Some(unit_texts),
            unit_texts == texts@.map_values(|u: String| u@),
            units@.len() == i,
            forall|j: int| 0 <= j < i ==> method_text(unit_texts[j]) is Some,
            forall|j: int|
                0 <= j < i ==> (#[trigger] units@[j])@ == unit_model(unit_texts[j]),
        decreases texts.len() - i,
    {
        match method_of_text(texts[i].as_str()) {
            Option::Some(method) => {
                let raw = texts[i].clone();
                units.push(RequestUnit { method, raw });
            },
            Option::None => {
                proof {
                    assert(unit_texts[i as int] == texts@[i as int]@);
                    assert(method_text(unit_texts[i as int]) is None);
                    assert(!units_well_formed(unit_texts));
                }
                return Option::None;
            },
        }
        i = i + 1;
    }
    proof {
        assert(units_well_formed(unit_texts));
        assert(units@.map_values(|u: RequestUnit| u@) =~= unit_texts.map_values(
            |u: Seq<char>| unit_model(u),
        ));
    }
    Option::Some(units)
}

/// The unit texts joined with commas, the body of a JSON array text.
pub open spec fn joined(us: Seq<Seq<char>>) -> Seq<char>
    decreases us.len(),
{
    if us.len() == 0 {
        Seq::empty()
    } else if us.len() == 1 {
        us[0]
    } else {
        joined(us.drop_last()) + seq![','] + us.last()
    }
}

/// The JSON array text whose elements are the given unit texts, in order.
pub open spec fn json_array_text(us: Seq<Seq<char>>) -> Seq<char> {
    seq!['['] + joined(us) + seq![']']
}

/// Render an ordered batch of response texts as one JSON array text.
/// The element texts are already JSON, so the array is exactly brackets
/// and comma-joined elements.
pub fn render_array(units: &Vec<String>) -> (r: String)
    ensures
        r@ == json_array_text(units@.map_values(|u: String| u@)),
{
    let ghost unit_texts: Seq<Seq<char>> = units@.map_values(|u: String| u@);
    let mut out = String::new();
    out.append("[");
    proof {
        reveal_strlit("[");
        assert(out@ =~= seq!['['] + joined(unit_texts.take(0)));
    }
    let mut i: usize = 0;
    while i < units.len()
        invariant
            0 <= i <= units.len(),
            unit_texts == units@.map_values(|u: String| u@),
            out@ == seq!['['] + joined(unit_texts.take(i as int)),
        decreases units.len() - i,
    {
        if i > 0 {
            out.append(",");
            proof {
                reveal_strlit(",");
            }
        }
        out.append(units[i].as_str());
        proof {
            let pre = unit_texts.take(i as int);
            let post = unit_texts.take(i + 1 as int);
            assert(post.drop_last() =~= pre);
            assert(post.last() == unit_texts[i as int]);
            if i == 0 {
                assert(joined(post) == unit_texts[0]);
            }
        }
        i = i + 1;
    }
    out.append("]");
    proof {
        reveal_strlit("]");
        assert(unit_texts.take(units@.len() as int) =~= unit_texts);
        assert(out@ =~= json_array_text(unit_texts));
    }
    out
}

/// The empty response envelope: the text a malformed submission resolves
/// with.
pub fn render_empty() -> (r: String)
    ensures
        r@ == json_array_text(Seq::empty()),
{
    let empty: Vec<String> = Vec::new();
    let r = render_array(&empty);
    proof {
        assert(empty@.map_values(|u: String| u@) =~= Seq::<Seq<char>>::empty());
    }
    r
}

} // verus!
