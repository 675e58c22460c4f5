//! Cookies and their attributes, with the text form `name=value; Attr=Val; Flag`.

use crate::number::{decimal, parse_count, push_decimal, read_count};
use crate::text::{append_str, chars_of, is_text, split, split_char, split_text, string_of, views};
use vstd::prelude::*;

verus! {

/// The values of the `SameSite` attribute.
#[derive(Debug, PartialEq, Eq, Structural)]
pub enum SameSiteTypes {
    Strict,
    Lax,
    /// `SameSite=None`: the cookie is sent in every context.
    Unrestricted,
}

impl Clone for SameSiteTypes {
    fn clone(&self) -> (r: Self)
        ensures
            r == *self,
    {
        match self {
            SameSiteTypes::Strict => SameSiteTypes::Strict,
            SameSiteTypes::Lax => SameSiteTypes::Lax,
            SameSiteTypes::Unrestricted => SameSiteTypes::Unrestricted,
        }
    }
}

/// The attributes that a cookie can have.
#[derive(Debug)]
pub enum CookieAttributes {
    Secure,
    HTTPOnly,
    Path(String),
    Domain(String),
    SameSite(SameSiteTypes),
    MaxAge(usize),
    Expires(String),
}

/// A cookie attribute as a mathematical value.
pub enum AttributeSpec {
    Secure,
    HTTPOnly,
    Path(Seq<char>),
    Domain(Seq<char>),
    SameSite(SameSiteTypes),
    MaxAge(usize),
    Expires(Seq<char>),
}

impl View for CookieAttributes {
    type V = AttributeSpec;

    open spec fn view(&self) -> AttributeSpec {
        match self {
            CookieAttributes::Secure => AttributeSpec::Secure,
            CookieAttributes::HTTPOnly => AttributeSpec::HTTPOnly,
            CookieAttributes::Path(n) => AttributeSpec::Path(n@),
            CookieAttributes::Domain(n) => AttributeSpec::Domain(n@),
            CookieAttributes::SameSite(n) => AttributeSpec::SameSite(*n),
            CookieAttributes::MaxAge(n) => AttributeSpec::MaxAge(*n),
            CookieAttributes::Expires(n) => AttributeSpec::Expires(n@),
        }
    }
}

/// The text form of an attribute.
pub open spec fn attribute_text(a: AttributeSpec) -> Seq<char> {
    match a {
        AttributeSpec::Secure => "Secure"@,
        AttributeSpec::HTTPOnly => "HttpOnly"@,
        AttributeSpec::Path(n) => "Path="@ + n,
        AttributeSpec::Domain(n) => "Domain="@ + n,
        AttributeSpec::SameSite(n) => match n {
            SameSiteTypes::Strict => "SameSite=Strict"@,
            SameSiteTypes::Lax => "SameSite=Lax"@,
            SameSiteTypes::Unrestricted => "SameSite=None"@,
        },
        AttributeSpec::MaxAge(n) => "Max-Age="@ + decimal(n as nat),
        AttributeSpec::Expires(n) => "Expires="@ + n,
    }
}

/// The attribute that the text `seg` writes, if it writes one.
///
/// A text with `=` in it is a key and a value; what follows a second `=` does
/// not count. A text without `=` is a flag. A key or flag that is not known,
/// or a value that its key does not take, gives no attribute.
pub open spec fn parse_attribute(seg: Seq<char>) -> Option<AttributeSpec> {
    let parts = split(seg, seq!['=']);
    if parts.len() >= 2 {
        let key = parts[0];
        let value = parts[1];
        if key == "Expires"@ {
            Some(AttributeSpec::Expires(value))
        } else if key == "Max-Age"@ {
            match parse_count(value) {
                Some(n) => Some(AttributeSpec::MaxAge(n)),
                None => None,
            }
        } else if key == "Domain"@ {
            Some(AttributeSpec::Domain(value))
        } else if key == "Path"@ {
            Some(AttributeSpec::Path(value))
        } else if key == "SameSite"@ {
            if value == "Lax"@ {
                Some(AttributeSpec::SameSite(SameSiteTypes::Lax))
            } else if value == "Strict"@ {
                Some(AttributeSpec::SameSite(SameSiteTypes::Strict))
            } else if value == "None"@ {
                Some(AttributeSpec::SameSite(SameSiteTypes::Unrestricted))
            } else {
                None
            }
        } else {
            None
        }
    } else if seg == "Secure"@ {
        Some(AttributeSpec::Secure)
    } else if seg == "HttpOnly"@ {
        Some(AttributeSpec::HTTPOnly)
    } else {
        None
    }
}

/// The attributes that the texts `segs` write, in their order; a text that
/// writes none is passed over.
pub open spec fn parse_attributes(segs: Seq<Seq<char>>) -> Seq<AttributeSpec>
    decreases segs.len(),
{
    if segs.len() == 0 {
        seq![]
    } else {
        let head = parse_attributes(segs.drop_last());
        match parse_attribute(segs.last()) {
            Some(a) => head.push(a),
            None => head,
        }
    }
}

/// The text of a list of attributes: `; ` before each.
pub open spec fn attributes_text(attrs: Seq<AttributeSpec>) -> Seq<char>
    decreases attrs.len(),
{
    if attrs.len() == 0 {
        seq![]
    } else {
        attributes_text(attrs.drop_last()) + "; "@ + attribute_text(attrs.last())
    }
}

/// The view of each attribute of `attrs`.
pub open spec fn attribute_views(attrs: Seq<CookieAttributes>) -> Seq<AttributeSpec> {
    attrs.map_values(|a: CookieAttributes| a@)
}

impl Clone for CookieAttributes {
    fn clone(&self) -> (r: Self)
        ensures
            r@ == self@,
    {
        match self {
            CookieAttributes::Secure => CookieAttributes::Secure,
            CookieAttributes::HTTPOnly => CookieAttributes::HTTPOnly,
            CookieAttributes::Path(n) => CookieAttributes::Path(n.clone()),
            CookieAttributes::Domain(n) => CookieAttributes::Domain(n.clone()),
            CookieAttributes::SameSite(n) => CookieAttributes::SameSite(n.clone()),
            CookieAttributes::MaxAge(n) => CookieAttributes::MaxAge(*n),
            CookieAttributes::Expires(n) => CookieAttributes::Expires(n.clone()),
        }
    }
}

impl CookieAttributes {
    /// Reads one attribute from the characters `v`.
    pub fn from_chars(v: &Vec<char>) -> (r: Option<CookieAttributes>)
        ensures
            match r {
                Some(a) => parse_attribute(v@) == Some(a@),
                None => parse_attribute(v@) is None,
            },
    {
        let parts = split_char(v, '=');
        if parts.len() >= 2 {
            let key = &parts[0];
            let value = &parts[1];
            assert(views(parts@)[0] == key@);
            assert(views(parts@)[1] == value@);
            if is_text(key, "Expires") {
                Some(CookieAttributes::Expires(string_of(value)))
            } else if is_text(key, "Max-Age") {
                match read_count(value) {
                    Some(n) => Some(CookieAttributes::MaxAge(n)),
                    None => None,
                }
            } else if is_text(key, "Domain") {
                Some(CookieAttributes::Domain(string_of(value)))
            } else if is_text(key, "Path") {
                Some(CookieAttributes::Path(string_of(value)))
            } else if is_text(key, "SameSite") {
                if is_text(value, "Lax") {
                    Some(CookieAttributes::SameSite(SameSiteTypes::Lax))
                } else if is_text(value, "Strict") {
                    Some(CookieAttributes::SameSite(SameSiteTypes::Strict))
                } else if is_text(value, "None") {
                    Some(CookieAttributes::SameSite(SameSiteTypes::Unrestricted))
                } else {
                    None
                }
            } else {
                None
            }
        } else if is_text(v, "Secure") {
            Some(CookieAttributes::Secure)
        } else if is_text(v, "HttpOnly") {
            Some(CookieAttributes::HTTPOnly)
        } else {
            None
        }
    }

    /// Appends the text form of this attribute to `out`.
    pub fn write_to(&self, out: &mut Vec<char>)
        ensures
            final(out)@ == old(out)@ + attribute_text(self@),
    {
        match self {
            CookieAttributes::Secure => append_str(out, "Secure"),
            CookieAttributes::HTTPOnly => append_str(out, "HttpOnly"),
            CookieAttributes::Path(n) => {
                append_str(out, "Path=");
                append_str(out, n.as_str());
            },
            CookieAttributes::Domain(n) => {
                append_str(out, "Domain=");
                append_str(out, n.as_str());
            },
            CookieAttributes::SameSite(n) => match n {
                SameSiteTypes::Strict => append_str(out, "SameSite=Strict"),
                SameSiteTypes::Lax => append_str(out, "SameSite=Lax"),
                SameSiteTypes::Unrestricted => append_str(out, "SameSite=None"),
            },
            CookieAttributes::MaxAge(n) => {
                append_str(out, "Max-Age=");
                push_decimal(out, *n);
            },
            CookieAttributes::Expires(n) => {
                append_str(out, "Expires=");
                append_str(out, n.as_str());
            },
        }
    }

    /// The text form of this attribute.
    pub fn to_string(&self) -> (s: String)
        ensures
            s@ == attribute_text(self@),
    {
        let mut out: Vec<char> = Vec::new();
        self.write_to(&mut out);
        string_of(&out)
    }
}

/// A cookie: a name, a value, and the attributes it was given, if any.
#[derive(Debug)]
pub struct Cookie {
    name: String,
    value: String,
    attributes: Option<Vec<CookieAttributes>>,
}

/// A cookie as a mathematical value.
pub struct CookieSpec {
    pub name: Seq<char>,
    pub value: Seq<char>,
    pub attributes: Option<Seq<AttributeSpec>>,
}

impl View for Cookie {
    type V = CookieSpec;

    closed spec fn view(&self) -> CookieSpec {
        CookieSpec {
            name: self.name@,
            value: self.value@,
            attributes: match self.attributes {
                Some(a) => Some(attribute_views(a@)),
                None => None,
            },
        }
    }
}

/// The cookie that the text `s` writes, if it writes one.
///
/// The text is cut at each `; `. The first piece must hold a `=`: what stands
/// before it is the name, and what stands between it and the next `=`, or the
/// end of the piece, is the value. The other pieces are attributes. A cookie
/// without a known attribute has `None` for its attributes.
pub open spec fn parse_cookie(s: Seq<char>) -> Option<CookieSpec> {
    let segs = split(s, "; "@);
    let pair = split(segs[0], seq!['=']);
    if pair.len() < 2 {
        None
    } else {
        let attrs = parse_attributes(segs.skip(1));
        Some(
            CookieSpec {
                name: pair[0],
                value: pair[1],
                attributes: if attrs.len() == 0 {
                    None
                } else {
                    Some(attrs)
                },
            },
        )
    }
}

/// The text form of a cookie.
pub open spec fn cookie_text(c: CookieSpec) -> Seq<char> {
    c.name + "="@ + c.value + match c.attributes {
        Some(a) => attributes_text(a),
        None => seq![],
    }
}

/// A copy of the attributes `attrs`.
pub fn clone_attributes(attrs: &Vec<CookieAttributes>) -> (r: Vec<CookieAttributes>)
    ensures
        attribute_views(r@) == attribute_views(attrs@),
{
    let mut r: Vec<CookieAttributes> = Vec::new();
    let mut i: usize = 0;
    while i < attrs.len()
        invariant
            i <= attrs.len(),
            attribute_views(r@) == attribute_views(attrs@).take(i as int),
        decreases attrs.len() - i,
    {
        let a = attrs[i].clone();
        assert(attribute_views(r@.push(a)) == attribute_views(r@).push(a@));
        r.push(a);
        i += 1;
    }
    assert(attribute_views(attrs@).take(attrs.len() as int) == attribute_views(attrs@));
    r
}

impl Clone for Cookie {
    fn clone(&self) -> (r: Self)
        ensures
            r@ == self@,
    {
        Cookie {
            name: self.name.clone(),
            value: self.value.clone(),
            attributes: match &self.attributes {
                Some(a) => Some(clone_attributes(a)),
                None => None,
            },
        }
    }
}

impl Cookie {
    /// A cookie of these parts.
    pub fn new(name: String, value: String, attributes: Option<Vec<CookieAttributes>>) -> (r:
        Cookie)
        ensures
            r@ == (CookieSpec {
                name: name@,
                value: value@,
                attributes: match attributes {
                    Some(a) => Some(attribute_views(a@)),
                    None => None,
                },
            }),
    {
        Cookie { name, value, attributes }
    }

    /// Reads a cookie from the characters `v`.
    pub fn from_chars(v: &Vec<char>) -> (r: Option<Cookie>)
        ensures
            match r {
                Some(c) => parse_cookie(v@) == Some(c@),
                None => parse_cookie(v@) is None,
            },
    {
        let sep = chars_of("; ");
        let segs = split_text(v, &sep);
        let ghost texts = views(segs@);
        assert(texts[0] == segs@[0]@);
        let pair = split_char(&segs[0], '=');
        if pair.len() < 2 {
            return None;
        }
        assert(views(pair@)[0] == pair@[0]@);
        assert(views(pair@)[1] == pair@[1]@);
        let mut attrs: Vec<CookieAttributes> = Vec::new();
        let mut i: usize = 1;
        assert(attribute_views(attrs@) == Seq::<AttributeSpec>::empty());
        assert(texts.subrange(1, 1).len() == 0);
        while i < segs.len()
            invariant
                1 <= i <= segs.len(),
                texts == views(segs@),
                attribute_views(attrs@) == parse_attributes(texts.subrange(1, i as int)),
            decreases segs.len() - i,
        {
            let ghost upto = texts.subrange(1, i + 1);
            assert(upto.drop_last() == texts.subrange(1, i as int));
            assert(upto.last() == segs@[i as int]@);
            match CookieAttributes::from_chars(&segs[i]) {
                Some(a) => {
                    assert(attribute_views(attrs@.push(a)) == attribute_views(attrs@).push(a@));
                    attrs.push(a);
                },
                None => {},
            }
            i += 1;
        }
        assert(texts.subrange(1, segs.len() as int) == texts.skip(1));
        let attributes = if attrs.len() == 0 {
            None
        } else {
            Some(attrs)
        };
        Some(Cookie::new(string_of(&pair[0]), string_of(&pair[1]), attributes))
    }

    /// Reads a cookie from its text form; `None` where the text has no `=` in
    /// its first piece.
    pub fn from_string(string: String) -> (r: Option<Cookie>)
        ensures
            match r {
                Some(c) => parse_cookie(string@) == Some(c@),
                None => parse_cookie(string@) is None,
            },
    {
        let v = chars_of(string.as_str());
        Cookie::from_chars(&v)
    }

    /// Appends the text form of this cookie to `out`.
    pub fn write_to(&self, out: &mut Vec<char>)
        ensures
            final(out)@ == old(out)@ + cookie_text(self@),
    {
        append_str(out, self.name.as_str());
        append_str(out, "=");
        append_str(out, self.value.as_str());
        match &self.attributes {
            Some(attrs) => {
                let ghost base = out@;
                let ghost all = attribute_views(attrs@);
                let mut i: usize = 0;
                assert(all.take(0).len() == 0);
                while i < attrs.len()
                    invariant
                        i <= attrs.len(),
                        all == attribute_views(attrs@),
                        out@ == base + attributes_text(all.take(i as int)),
                    decreases attrs.len() - i,
                {
                    assert(all.take(i + 1).drop_last() == all.take(i as int));
                    assert(all.take(i + 1).last() == attrs@[i as int]@);
                    append_str(out, "; ");
                    attrs[i].write_to(out);
                    i += 1;
                }
                assert(all.take(attrs.len() as int) == all);
            },
            None => {},
        }
    }

    /// The text form of this cookie, as it is sent in requests and responses.
    pub fn to_string(&self) -> (s: String)
        ensures
            s@ == cookie_text(self@),
    {
        let mut out: Vec<char> = Vec::new();
        self.write_to(&mut out);
        string_of(&out)
    }
}

/// Whether `s` holds neither `;` nor `=`.
pub open spec fn plain(s: Seq<char>) -> bool {
    forall|j: int| 0 <= j < s.len() ==> s[j] != ';' && s[j] != '='
}

/// Whether the text that `a` carries, if it carries one, is plain.
pub open spec fn plain_attribute(a: AttributeSpec) -> bool {
    match a {
        AttributeSpec::Path(n) => plain(n),
        AttributeSpec::Domain(n) => plain(n),
        AttributeSpec::Expires(n) => plain(n),
        _ => true,
    }
}

/// The text of each attribute of `attrs`.
pub open spec fn attribute_texts(attrs: Seq<AttributeSpec>) -> Seq<Seq<char>> {
    attrs.map_values(|a: AttributeSpec| attribute_text(a))
}

/// A key, `=` and a value are read as that key and that value.
proof fn lemma_key_value(key: Seq<char>, value: Seq<char>)
    requires
        plain(key),
        plain(value),
    ensures
        split(key + seq!['='] + value, seq!['=']) == seq![key, value],
        forall|j: int|
            0 <= j < (key + seq!['='] + value).len() ==> (key + seq!['='] + value)[j] != ';',
{
    crate::text::lemma_split_pair(key, value, '=');
    let t = key + seq!['='] + value;
    assert forall|j: int| 0 <= j < t.len() implies t[j] != ';' by {
        if j < key.len() {
            assert(t[j] == key[j]);
        } else if j > key.len() {
            assert(t[j] == value[j - key.len() - 1]);
        }
    }
}

/// The text of an attribute reads back as that attribute, and holds no `;`.
pub proof fn lemma_attribute_round_trip(a: AttributeSpec)
    requires
        plain_attribute(a),
    ensures
        parse_attribute(attribute_text(a)) == Some(a),
        forall|j: int| 0 <= j < attribute_text(a).len() ==> attribute_text(a)[j] != ';',
{
    reveal_strlit("Secure");
    reveal_strlit("HttpOnly");
    reveal_strlit("Expires");
    reveal_strlit("Max-Age");
    reveal_strlit("Domain");
    reveal_strlit("Path");
    reveal_strlit("SameSite");
    reveal_strlit("Lax");
    reveal_strlit("Strict");
    reveal_strlit("None");
    let eq = seq!['='];
    match a {
        AttributeSpec::Secure => {
            crate::text::lemma_split_single("Secure"@, eq);
            assert(split("Secure"@, eq).len() == 1);
        },
        AttributeSpec::HTTPOnly => {
            crate::text::lemma_split_single("HttpOnly"@, eq);
            assert(split("HttpOnly"@, eq).len() == 1);
            assert("HttpOnly"@.len() != "Secure"@.len());
        },
        AttributeSpec::Path(n) => {
            reveal_strlit("Path=");
            assert("Path="@ == "Path"@ + eq);
            assert(attribute_text(a) == "Path"@ + eq + n);
            assert(plain("Path"@));
            lemma_key_value("Path"@, n);
        },
        AttributeSpec::Domain(n) => {
            reveal_strlit("Domain=");
            assert("Domain="@ == "Domain"@ + eq);
            assert(attribute_text(a) == "Domain"@ + eq + n);
            assert(plain("Domain"@));
            lemma_key_value("Domain"@, n);
        },
        AttributeSpec::Expires(n) => {
            reveal_strlit("Expires=");
            assert("Expires="@ == "Expires"@ + eq);
            assert(attribute_text(a) == "Expires"@ + eq + n);
            assert(plain("Expires"@));
            lemma_key_value("Expires"@, n);
        },
        AttributeSpec::MaxAge(n) => {
            reveal_strlit("Max-Age=");
            assert("Max-Age="@ == "Max-Age"@ + eq);
            let digits = decimal(n as nat);
            assert(attribute_text(a) == "Max-Age"@ + eq + digits);
            crate::number::lemma_decimal_digits(n as nat);
            crate::number::lemma_decimal_round_trip(n);
            assert forall|j: int| 0 <= j < digits.len() implies digits[j] != ';' && digits[j]
                != '=' by {
                assert(crate::number::is_digit(digits[j]));
            }
            assert(plain("Max-Age"@));
            assert("Max-Age"@[0] != "Expires"@[0]);
            lemma_key_value("Max-Age"@, digits);
        },
        AttributeSpec::SameSite(kind) => {
            reveal_strlit("SameSite=Strict");
            reveal_strlit("SameSite=Lax");
            reveal_strlit("SameSite=None");
            assert(plain("SameSite"@));
            let value = match kind {
                SameSiteTypes::Strict => "Strict"@,
                SameSiteTypes::Lax => "Lax"@,
                SameSiteTypes::Unrestricted => "None"@,
            };
            assert(plain(value));
            assert(attribute_text(a) == "SameSite"@ + eq + value);
            lemma_key_value("SameSite"@, value);
            assert("Lax"@.len() != "Strict"@.len());
            assert("None"@.len() != "Strict"@.len());
            assert("None"@.len() != "Lax"@.len());
        },
    }
}

/// The text of a list of attributes starts with `; ` and the first of them.
pub proof fn lemma_attributes_text_first(attrs: Seq<AttributeSpec>)
    requires
        attrs.len() > 0,
    ensures
        attributes_text(attrs) == "; "@ + attribute_text(attrs[0]) + attributes_text(
            attrs.drop_first(),
        ),
    decreases attrs.len(),
{
    let empty = Seq::<char>::empty();
    if attrs.len() == 1 {
        assert(attributes_text(attrs.drop_last()) == empty);
        assert(attributes_text(attrs.drop_first()) == empty);
        assert(attrs.last() == attrs[0]);
        assert(empty + "; "@ + attribute_text(attrs[0]) == "; "@ + attribute_text(attrs[0])
            + empty);
    } else {
        let front = attrs.drop_last();
        lemma_attributes_text_first(front);
        assert(front[0] == attrs[0]);
        assert(front.drop_first() == attrs.drop_first().drop_last());
        assert(attrs.drop_first().last() == attrs.last());
        let first = "; "@ + attribute_text(attrs[0]);
        let middle = attributes_text(front.drop_first());
        let last = attribute_text(attrs.last());
        assert(attributes_text(attrs) == (first + middle) + "; "@ + last);
        assert(attributes_text(attrs.drop_first()) == middle + "; "@ + last);
        assert((first + middle) + "; "@ + last == first + (middle + "; "@ + last));
    }
}

/// A text without `;` and the text of a list of attributes are cut at `; `
/// into that text and the text of each attribute.
pub proof fn lemma_attributes_split(head: Seq<char>, attrs: Seq<AttributeSpec>)
    requires
        forall|j: int| 0 <= j < head.len() ==> head[j] != ';',
        forall|i: int| 0 <= i < attrs.len() ==> plain_attribute(attrs[i]),
    ensures
        split(head + attributes_text(attrs), "; "@) == seq![head] + attribute_texts(attrs),
    decreases attrs.len(),
{
    reveal_strlit("; ");
    let sep = "; "@;
    if attrs.len() == 0 {
        assert(head + attributes_text(attrs) == head);
        crate::text::lemma_split_single(head, sep);
        assert(seq![head] + attribute_texts(attrs) == seq![head]);
    } else {
        let first = attribute_text(attrs[0]);
        let tail = attrs.drop_first();
        lemma_attributes_text_first(attrs);
        lemma_attribute_round_trip(attrs[0]);
        assert forall|i: int| 0 <= i < tail.len() implies plain_attribute(tail[i]) by {
            assert(tail[i] == attrs[i + 1]);
        }
        lemma_attributes_split(first, tail);
        let rest = first + attributes_text(tail);
        assert(head + attributes_text(attrs) == head + sep + rest);
        crate::text::lemma_split_first(head, sep, rest);
        assert(attribute_texts(attrs) == seq![first] + attribute_texts(tail));
        assert(seq![head] + (seq![first] + attribute_texts(tail)) == seq![head]
            + attribute_texts(attrs));
    }
}

/// The texts of a list of attributes read back as those attributes.
pub proof fn lemma_attributes_round_trip(attrs: Seq<AttributeSpec>)
    requires
        forall|i: int| 0 <= i < attrs.len() ==> plain_attribute(attrs[i]),
    ensures
        parse_attributes(attribute_texts(attrs)) == attrs,
    decreases attrs.len(),
{
    let texts = attribute_texts(attrs);
    if attrs.len() == 0 {
        assert(parse_attributes(texts) == Seq::<AttributeSpec>::empty());
    } else {
        let front = attrs.drop_last();
        assert forall|i: int| 0 <= i < front.len() implies plain_attribute(front[i]) by {
            assert(front[i] == attrs[i]);
        }
        lemma_attributes_round_trip(front);
        lemma_attribute_round_trip(attrs.last());
        assert(texts.drop_last() == attribute_texts(front));
        assert(texts.last() == attribute_text(attrs.last()));
        assert(front.push(attrs.last()) == attrs);
    }
}

/// A cookie goes through its text form and back unchanged: where its name,
/// its value and the texts that its attributes carry hold neither `;` nor
/// `=`, and its list of attributes, if it has one, is not empty, the text of
/// the cookie reads back as the cookie.
pub proof fn lemma_cookie_round_trip(c: CookieSpec)
    requires
        plain(c.name),
        plain(c.value),
        c.attributes matches Some(attrs) ==> attrs.len() > 0 && forall|i: int|
            0 <= i < attrs.len() ==> plain_attribute(attrs[i]),
    ensures
        parse_cookie(cookie_text(c)) == Some(c),
{
    reveal_strlit("=");
    let attrs = match c.attributes {
        Some(a) => a,
        None => Seq::<AttributeSpec>::empty(),
    };
    let pair = c.name + seq!['='] + c.value;
    assert("="@ == seq!['=']);
    assert(attributes_text(Seq::<AttributeSpec>::empty()) == Seq::<char>::empty());
    assert(cookie_text(c) == pair + attributes_text(attrs));
    lemma_key_value(c.name, c.value);
    lemma_attributes_split(pair, attrs);
    lemma_attributes_round_trip(attrs);
    let segs = split(cookie_text(c), "; "@);
    assert(segs[0] == pair);
    assert(segs.skip(1) == attribute_texts(attrs));
    let kv = split(segs[0], seq!['=']);
    assert(kv[0] == c.name);
    assert(kv[1] == c.value);
}

} // verus!
