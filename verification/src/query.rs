//! The arguments of a tool call, and the query strings that they become.

use vstd::prelude::*;

use crate::text::same;

verus! {

/// Whether a byte stands for itself in a URL.
pub open spec fn unreserved(b: u8) -> bool {
    ||| 65 <= b <= 90
    ||| 97 <= b <= 122
    ||| 48 <= b <= 57
    ||| b == 45
    ||| b == 95
    ||| b == 46
    ||| b == 126
}

/// The hexadecimal digit `d`, in upper case.
pub open spec fn hex_upper(d: int) -> char {
    if d < 10 { (48 + d) as char } else { (55 + d) as char }
}

/// A byte as it is written in a URL: by itself, or as `%` and two hexadecimal digits.
pub open spec fn encoded_byte(b: u8) -> Seq<char> {
    if unreserved(b) {
        seq![b as char]
    } else {
        seq!['%', hex_upper(b as int / 16), hex_upper(b as int % 16)]
    }
}

/// Bytes as they are written in a URL.
pub open spec fn url_encoded(bytes: Seq<u8>) -> Seq<char>
    decreases bytes.len(),
{
    if bytes.len() == 0 {
        seq![]
    } else {
        encoded_byte(bytes[0]) + url_encoded(bytes.drop_first())
    }
}

fn hex_char(d: u8) -> (c: char)
    requires
        d < 16,
    ensures
        c == hex_upper(d as int),
{
    if d < 10 {
        (48 + d) as char
    } else {
        (55 + d) as char
    }
}

fn is_unreserved(b: u8) -> (r: bool)
    ensures
        r == unreserved(b),
{
    (65 <= b && b <= 90) || (97 <= b && b <= 122) || (48 <= b && b <= 57) || b == 45 || b == 95
        || b == 46 || b == 126
}

/// Encodes a text for a URL, byte by byte.
pub fn urlencode(s: &str) -> (r: String)
    ensures
        r@ == url_encoded(vstd::utf8::encode_utf8(s@)),
{
    let bytes = s.as_bytes();
    let mut out = String::new();
    let mut i: usize = 0;
    assert(bytes@.skip(0) =~= bytes@);
    assert(out@ + url_encoded(bytes@) =~= url_encoded(bytes@));
    while i < bytes.len()
        invariant
            i <= bytes@.len(),
            url_encoded(bytes@) == out@ + url_encoded(bytes@.skip(i as int)),
        decreases bytes@.len() - i,
    {
        let b: u8 = bytes[i];
        let ghost before = out@;
        if is_unreserved(b) {
            out.push(b as char);
        } else {
            out.push('%');
            out.push(hex_char(b / 16));
            out.push(hex_char(b % 16));
        }
        assert(out@ =~= before + encoded_byte(b));
        assert(bytes@.skip(i as int)[0] == b);
        assert(bytes@.skip(i as int).drop_first() =~= bytes@.skip(i + 1));
        assert(out@ + url_encoded(bytes@.skip(i + 1)) =~= before + url_encoded(
            bytes@.skip(i as int),
        ));
        i = i + 1;
    }
    assert(url_encoded(bytes@.skip(i as int)) =~= seq![]);
    assert(out@ =~= url_encoded(bytes@));
    out
}

/// Nothing in an encoded text has a meaning in a query string: every character is one that
/// stands for itself, or `%`.
pub proof fn law_urlencode_is_safe(bytes: Seq<u8>)
    ensures
        forall|i: int|
            0 <= i < url_encoded(bytes).len() ==> {
                let c = #[trigger] url_encoded(bytes)[i];
                c == '%' || (c as u32 <= 126 && unreserved(c as u8))
            },
    decreases bytes.len(),
{
    if bytes.len() > 0 {
        law_urlencode_is_safe(bytes.drop_first());
        let head = encoded_byte(bytes[0]);
        let tail = url_encoded(bytes.drop_first());
        assert forall|i: int| 0 <= i < (head + tail).len() implies {
            let c = #[trigger] (head + tail)[i];
            c == '%' || (c as u32 <= 126 && unreserved(c as u8))
        } by {
            if i >= head.len() {
                assert((head + tail)[i] == tail[i - head.len()]);
            }
        }
    }
}

/// Different texts are encoded differently, so that nothing is lost.
pub proof fn law_urlencode_loses_nothing(a: Seq<u8>, b: Seq<u8>)
    requires
        url_encoded(a) == url_encoded(b),
    ensures
        a == b,
    decreases a.len(),
{
    if a.len() == 0 {
        if b.len() > 0 {
            assert(url_encoded(b).len() >= encoded_byte(b[0]).len());
        }
        assert(a =~= b);
    } else {
        assert(url_encoded(a).len() >= encoded_byte(a[0]).len());
        assert(b.len() > 0);
        let ea = encoded_byte(a[0]);
        let eb = encoded_byte(b[0]);
        let ta = url_encoded(a.drop_first());
        let tb = url_encoded(b.drop_first());
        assert((ea + ta)[0] == ea[0]);
        assert((eb + tb)[0] == eb[0]);
        if !unreserved(a[0]) && !unreserved(b[0]) {
            assert((ea + ta)[1] == ea[1]);
            assert((eb + tb)[1] == eb[1]);
            assert((ea + ta)[2] == ea[2]);
            assert((eb + tb)[2] == eb[2]);
            assert(a[0] as int / 16 == b[0] as int / 16);
            assert(a[0] as int % 16 == b[0] as int % 16);
        }
        assert(a[0] == b[0]);
        assert(ta =~= (ea + ta).skip(ea.len() as int));
        assert(tb =~= (eb + tb).skip(eb.len() as int));
        law_urlencode_loses_nothing(a.drop_first(), b.drop_first());
        assert(a =~= seq![a[0]] + a.drop_first());
        assert(b =~= seq![b[0]] + b.drop_first());
    }
}

/// The value of an argument.
#[derive(Debug, Clone)]
pub enum ArgValue {
    Text(String),
    Flag(bool),
    /// A number, as it is written.
    Number(String),
    /// Nothing that a query string can hold: null, a list or an object.
    Other,
}

/// The arguments of a call, by name.
#[derive(Debug, Clone)]
pub struct Arguments {
    pub fields: Vec<(String, ArgValue)>,
}

impl ArgValue {
    /// The value as a query string holds it.
    pub open spec fn rendered(self) -> Option<Seq<char>> {
        match self {
            ArgValue::Text(s) => Some(s@),
            ArgValue::Flag(b) => Some(if b { "true"@ } else { "false"@ }),
            ArgValue::Number(n) => Some(n@),
            ArgValue::Other => None,
        }
    }

    fn render(&self) -> (r: Option<String>)
        ensures
            (r is Some) == (self.rendered() is Some),
            r matches Some(s) ==> Some(s@) == self.rendered(),
    {
        match self {
            ArgValue::Text(s) => Some(s.clone()),
            ArgValue::Flag(b) => if *b {
                Some("true".to_owned())
            } else {
                Some("false".to_owned())
            },
            ArgValue::Number(n) => Some(n.clone()),
            ArgValue::Other => None,
        }
    }
}

/// The first value with a name.
pub open spec fn find(fields: Seq<(String, ArgValue)>, key: Seq<char>) -> Option<ArgValue>
    decreases fields.len(),
{
    if fields.len() == 0 {
        None
    } else if fields[0].0@ == key {
        Some(fields[0].1)
    } else {
        find(fields.drop_first(), key)
    }
}

impl Arguments {
    /// The value of an argument.
    pub open spec fn value(&self, key: Seq<char>) -> Option<ArgValue> {
        find(self.fields@, key)
    }

    /// The text of an argument; empty where it is not given or no text.
    pub open spec fn text(&self, key: Seq<char>) -> Seq<char> {
        match self.value(key) {
            Some(ArgValue::Text(s)) => s@,
            _ => seq![],
        }
    }

    /// Looks an argument up.
    pub fn get(&self, key: &str) -> (r: Option<&ArgValue>)
        ensures
            (r is Some) == (self.value(key@) is Some),
            r matches Some(v) ==> Some(*v) == self.value(key@),
    {
        let mut i: usize = 0;
        assert(self.fields@.skip(0) =~= self.fields@);
        while i < self.fields.len()
            invariant
                i <= self.fields@.len(),
                self.value(key@) == find(self.fields@.skip(i as int), key@),
            decreases self.fields@.len() - i,
        {
            if same(self.fields[i].0.as_str(), key) {
                return Some(&self.fields[i].1);
            }
            assert(self.fields@.skip(i as int).drop_first() =~= self.fields@.skip(i + 1));
            i = i + 1;
        }
        None
    }

    /// Looks up the text of an argument.
    pub fn get_text(&self, key: &str) -> (r: String)
        ensures
            r@ == self.text(key@),
    {
        match self.get(key) {
            Some(v) => match v {
                ArgValue::Text(s) => s.clone(),
                _ => String::new(),
            },
            None => String::new(),
        }
    }

    /// Looks up the text of an argument that has a default.
    pub fn text_or(&self, key: &str, default: &str) -> (r: String)
        ensures
            r@ == self.chosen(key@, default@),
    {
        let given = self.get_text(key);
        if given.as_str().is_empty() {
            assert(given@ =~= seq![]);
            default.to_owned()
        } else {
            given
        }
    }

    /// The text of an argument; the default where there is none.
    pub open spec fn chosen(&self, key: Seq<char>, default: Seq<char>) -> Seq<char> {
        if self.text(key) == Seq::<char>::empty() {
            default
        } else {
            self.text(key)
        }
    }
}

/// The part of a query string that an argument makes.
pub open spec fn pair(args: Arguments, key: Seq<char>) -> Option<Seq<char>> {
    match args.value(key) {
        Some(v) => match v.rendered() {
            Some(s) => Some(key + "="@ + url_encoded(vstd::utf8::encode_utf8(s))),
            None => None,
        },
        None => None,
    }
}

/// The query string of the arguments with the given names, in that order. Those that are not
/// given, and those that a query string cannot hold, are left out.
pub open spec fn query(args: Arguments, keys: Seq<Seq<char>>) -> Seq<char>
    decreases keys.len(),
{
    if keys.len() == 0 {
        seq![]
    } else {
        let before = query(args, keys.drop_last());
        match pair(args, keys.last()) {
            Some(p) => if before.len() == 0 {
                p
            } else {
                before + "&"@ + p
            },
            None => before,
        }
    }
}

/// A path with the query string behind it, where there is one.
pub open spec fn path_and_query(path: Seq<char>, args: Arguments, keys: Seq<Seq<char>>) -> Seq<
    char,
> {
    let q = query(args, keys);
    if q.len() == 0 {
        path
    } else {
        path + "?"@ + q
    }
}

/// The character sequences of names.
pub open spec fn names(keys: Seq<&'static str>) -> Seq<Seq<char>> {
    keys.map_values(|k: &'static str| k@)
}

/// Writes a path and the query string of the arguments with the given names.
pub fn path_with_query(path: &str, args: &Arguments, keys: &Vec<&'static str>) -> (r: String)
    ensures
        r@ == path_and_query(path@, *args, names(keys@)),
{
    let mut q = String::new();
    let mut i: usize = 0;
    assert(names(keys@).take(0) =~= seq![]);
    while i < keys.len()
        invariant
            i <= keys@.len(),
            q@ == query(*args, names(keys@).take(i as int)),
        decreases keys@.len() - i,
    {
        let key: &'static str = keys[i];
        assert(names(keys@).take(i + 1).drop_last() =~= names(keys@).take(i as int));
        assert(names(keys@).take(i + 1).last() == key@);
        let value = match args.get(key) {
            Some(v) => v.render(),
            None => None,
        };
        if let Some(s) = value {
            let p = key.to_owned().concat("=").concat(urlencode(s.as_str()).as_str());
            q = if q.as_str().is_empty() {
                p
            } else {
                q.concat("&").concat(p.as_str())
            };
        }
        i = i + 1;
    }
    assert(names(keys@).take(i as int) =~= names(keys@));
    if q.as_str().is_empty() {
        path.to_owned()
    } else {
        path.to_owned().concat("?").concat(q.as_str())
    }
}

/// Arguments under other names do not change the query string.
pub proof fn law_only_named_arguments_are_sent(
    a: Arguments,
    b: Arguments,
    keys: Seq<Seq<char>>,
)
    requires
        forall|i: int| 0 <= i < keys.len() ==> a.value(#[trigger] keys[i]) == b.value(keys[i]),
    ensures
        query(a, keys) == query(b, keys),
    decreases keys.len(),
{
    if keys.len() > 0 {
        assert(a.value(keys[keys.len() - 1]) == b.value(keys[keys.len() - 1]));
        assert forall|i: int| 0 <= i < keys.drop_last().len() implies a.value(
            #[trigger] keys.drop_last()[i],
        ) == b.value(keys.drop_last()[i]) by {
            assert(keys.drop_last()[i] == keys[i]);
        }
        law_only_named_arguments_are_sent(a, b, keys.drop_last());
    }
}

/// The number that an upper-case hexadecimal digit stands for.
pub open spec fn hex_value(c: char) -> int {
    if '0' <= c <= '9' {
        c as u32 - '0' as u32
    } else {
        c as u32 - 'A' as u32 + 10
    }
}

/// The bytes that a text in a URL stands for: `%` and two hexadecimal digits for one byte, and
/// any other character for itself.
pub open spec fn url_decoded(s: Seq<char>) -> Seq<u8>
    decreases s.len(),
{
    if s.len() == 0 {
        seq![]
    } else if s[0] == '%' && s.len() >= 3 {
        seq![(16 * hex_value(s[1]) + hex_value(s[2])) as u8] + url_decoded(s.skip(3))
    } else {
        seq![s[0] as u8] + url_decoded(s.skip(1))
    }
}

/// What is encoded for a URL is decoded to what it was.
pub proof fn law_urlencode_can_be_decoded(bytes: Seq<u8>)
    ensures
        url_decoded(url_encoded(bytes)) == bytes,
    decreases bytes.len(),
{
    if bytes.len() > 0 {
        let b = bytes[0];
        let rest = bytes.drop_first();
        let head = encoded_byte(b);
        let tail = url_encoded(rest);
        let s = head + tail;
        law_urlencode_can_be_decoded(rest);
        assert(s[0] == head[0]);
        if unreserved(b) {
            assert(s.skip(1) =~= tail);
            assert((b as char) as u8 == b);
            assert(b as char != '%');
        } else {
            assert(s[1] == head[1]);
            assert(s[2] == head[2]);
            assert(s.skip(3) =~= tail);
            let hi = b as int / 16;
            let lo = b as int % 16;
            assert(hex_value(hex_upper(hi)) == hi);
            assert(hex_value(hex_upper(lo)) == lo);
            assert(16 * hi + lo == b);
        }
        assert(seq![b] + rest =~= bytes);
    } else {
        assert(url_decoded(url_encoded(bytes)) =~= bytes);
    }
}

/// Letters, digits and the four marks `-`, `_`, `.` and `~` stand for themselves in a URL; every
/// other byte is written as `%` and two hexadecimal digits. Texts are encoded piece by piece.
pub proof fn law_only_plain_characters_stand_for_themselves(b: u8, a: Seq<u8>, c: Seq<u8>)
    ensures
        ({
            let plain = {
                ||| 'A' <= b as char <= 'Z'
                ||| 'a' <= b as char <= 'z'
                ||| '0' <= b as char <= '9'
                ||| b as char == '-'
                ||| b as char == '_'
                ||| b as char == '.'
                ||| b as char == '~'
            };
            &&& plain ==> url_encoded(seq![b]) == seq![b as char]
            &&& !plain ==> url_encoded(seq![b]).len() == 3 && url_encoded(seq![b])[0] == '%'
        }),
        url_encoded(a + c) == url_encoded(a) + url_encoded(c),
    decreases a.len(),
{
    assert(seq![b].drop_first() =~= seq![]);
    assert(url_encoded(seq![b].drop_first()) =~= seq![]);
    assert(url_encoded(seq![b]) =~= encoded_byte(b));
    if a.len() == 0 {
        assert(a + c =~= c);
        assert(url_encoded(a) + url_encoded(c) =~= url_encoded(c));
    } else {
        law_only_plain_characters_stand_for_themselves(b, a.drop_first(), c);
        assert((a + c).drop_first() =~= a.drop_first() + c);
        assert(url_encoded(a + c) =~= url_encoded(a) + url_encoded(c));
    }
}

/// An argument is the first field with its name; there is none exactly where no field has it.
pub proof fn law_the_first_field_of_a_name_counts(
    fields: Seq<(String, ArgValue)>,
    key: Seq<char>,
)
    ensures
        match find(fields, key) {
            Some(v) => exists|i: int|
                {
                    &&& 0 <= i < fields.len()
                    &&& (#[trigger] fields[i]).0@ == key
                    &&& fields[i].1 == v
                    &&& forall|j: int| 0 <= j < i ==> (#[trigger] fields[j]).0@ != key
                },
            None => forall|j: int| 0 <= j < fields.len() ==> (#[trigger] fields[j]).0@ != key,
        },
    decreases fields.len(),
{
    if fields.len() > 0 {
        if fields[0].0@ != key {
            let rest = fields.drop_first();
            law_the_first_field_of_a_name_counts(rest, key);
            match find(rest, key) {
                Some(v) => {
                    let i = choose|i: int|
                        {
                            &&& 0 <= i < rest.len()
                            &&& (#[trigger] rest[i]).0@ == key
                            &&& rest[i].1 == v
                            &&& forall|j: int| 0 <= j < i ==> (#[trigger] rest[j]).0@ != key
                        };
                    assert(fields[i + 1] == rest[i]);
                    assert forall|j: int| 0 <= j < i + 1 implies (
                    #[trigger] fields[j]).0@ != key by {
                        if j > 0 {
                            assert(rest[j - 1].0@ != key);
                        }
                    }
                },
                None => {
                    assert forall|j: int| 0 <= j < fields.len() implies (
                    #[trigger] fields[j]).0@ != key by {
                        if j > 0 {
                            assert(rest[j - 1].0@ != key);
                        }
                    }
                },
            }
        } else {
            assert(fields[0].0@ == key);
        }
    }
}

/// A text is sent as it is, a flag as "true" or "false", and a number as it is written; anything
/// else is not sent. A text is what an argument has only where it was given as one, and a default
/// stands in only where it is empty.
pub proof fn law_values_are_sent_as_they_are(
    v: ArgValue,
    args: Arguments,
    key: Seq<char>,
    default: Seq<char>,
)
    ensures
        v matches ArgValue::Text(s) ==> v.rendered() == Some(s@),
        v matches ArgValue::Number(n) ==> v.rendered() == Some(n@),
        v == ArgValue::Flag(true) ==> v.rendered() == Some("true"@),
        v == ArgValue::Flag(false) ==> v.rendered() == Some("false"@),
        v is Other <==> v.rendered() is None,
        args.value(key) matches Some(ArgValue::Text(s)) ==> args.text(key) == s@,
        !(args.value(key) matches Some(ArgValue::Text(_))) ==> args.text(key).len() == 0,
        args.text(key).len() > 0 ==> args.chosen(key, default) == args.text(key),
        args.text(key).len() == 0 ==> args.chosen(key, default) == default,
        args.value(key) == find(args.fields@, key),
{
    if args.text(key).len() == 0 {
        assert(args.text(key) =~= Seq::<char>::empty());
    }
}

/// A query string takes the names one by one: an argument that is given and can be sent adds its
/// name, `=` and its encoded value, behind `&` where something stands before it; any other adds
/// nothing. The query stands behind `?`, and no query behind nothing.
pub proof fn law_queries_add_one_argument_at_a_time(
    args: Arguments,
    keys: Seq<Seq<char>>,
    key: Seq<char>,
    path: Seq<char>,
)
    ensures
        query(args, seq![]).len() == 0,
        match args.value(key) {
            Some(v) => match v.rendered() {
                Some(s) => {
                    let added = key + "="@ + url_encoded(vstd::utf8::encode_utf8(s));
                    let before = query(args, keys);
                    &&& before.len() == 0 ==> query(args, keys.push(key)) == added
                    &&& before.len() > 0 ==> query(args, keys.push(key)) == before + "&"@ + added
                },
                None => query(args, keys.push(key)) == query(args, keys),
            },
            None => query(args, keys.push(key)) == query(args, keys),
        },
        query(args, keys).len() == 0 ==> path_and_query(path, args, keys) == path,
        query(args, keys).len() > 0 ==> path_and_query(path, args, keys) == path + "?"@ + query(
            args,
            keys,
        ),
{
    assert(keys.push(key).drop_last() =~= keys);
}

/// What is said of names is said of each of them, in their order.
pub proof fn law_names_are_one_for_one(keys: Seq<&'static str>)
    ensures
        names(keys).len() == keys.len(),
        forall|i: int| 0 <= i < keys.len() ==> #[trigger] names(keys)[i] == keys[i]@,
{
}

/// An encoded text is decoded to the bytes of what it was, and a path goes on with the query of
/// the arguments that are named.
pub proof fn law_urls_hold_what_was_given(
    s: &str,
    encoded: String,
    path: &str,
    args: Arguments,
    keys: Vec<&'static str>,
    url: String,
)
    requires
        call_ensures(urlencode, (s,), encoded),
        call_ensures(path_with_query, (path, &args, &keys), url),
    ensures
        url_decoded(encoded@) == vstd::utf8::encode_utf8(s@),
        url@.len() >= path@.len(),
        url@.take(path@.len() as int) == path@,
        url@ == path_and_query(path@, args, names(keys@)),
{
    law_urlencode_can_be_decoded(vstd::utf8::encode_utf8(s@));
    assert(url@.take(path@.len() as int) =~= path@);
}

} // verus!
