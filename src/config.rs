//! The configuration service: a fixed table of keys, a request that reads
//! them all, and one that writes a single key.
use vstd::prelude::*;
use vstd::string::*;
use vstd::utf8::valid_utf8;

use crate::error::Error;
use crate::wire::{read_response, response_text};

verus! {

/// Number of key slots, and of fields in a reply to a read.
pub const CONFIG_FIELDS: usize = 10;

/// Name of key slot `i`. The reserved slot has an empty name and is never
/// exposed.
pub open spec fn key_name(i: int) -> Seq<char> {
    if i == 0 {
        "ipv4"@
    } else if i == 1 {
        "netmask"@
    } else if i == 2 {
        "gateway"@
    } else if i == 3 {
        ""@
    } else if i == 4 {
        "power_persist"@
    } else if i == 5 {
        "version"@
    } else if i == 6 {
        "serial"@
    } else if i == 7 {
        "dns"@
    } else if i == 8 {
        "cloud_server"@
    } else {
        "cloud_enabled"@
    }
}

/// The ASCII character that selects slot `i` in a write request, where the
/// slot can be written: `2` to `7` for the first six slots, none for the
/// serial number, then `8`, `9` and `A`.
pub open spec fn key_selector(i: int) -> Option<u8> {
    if 0 <= i <= 5 {
        Some((50 + i) as u8)
    } else if i == 6 {
        None
    } else if i == 7 {
        Some(56u8)
    } else if i == 8 {
        Some(57u8)
    } else {
        Some(65u8)
    }
}

/// The first slot at or after `i` whose non-empty name is `k`.
pub open spec fn key_index_from(k: Seq<char>, i: int) -> Option<int>
    decreases CONFIG_FIELDS - i,
{
    if i < 0 || i >= CONFIG_FIELDS {
        None
    } else if key_name(i).len() > 0 && key_name(i) == k {
        Some(i)
    } else {
        key_index_from(k, i + 1)
    }
}

/// The slot named `k`, if any slot is.
pub open spec fn key_index(k: Seq<char>) -> Option<int> {
    key_index_from(k, 0)
}

/// The comma-separated fields of `s` from position `i` on, where the current
/// field began at `start`.
pub open spec fn fields_from(s: Seq<char>, start: int, i: int) -> Seq<Seq<char>>
    decreases s.len() - i,
{
    if i >= s.len() {
        seq![s.subrange(start, s.len() as int)]
    } else if s[i] == ',' {
        seq![s.subrange(start, i)] + fields_from(s, i + 1, i + 1)
    } else {
        fields_from(s, start, i + 1)
    }
}

/// The text between the commas of `s`; text without a comma is one field.
pub open spec fn split_commas(s: Seq<char>) -> Seq<Seq<char>> {
    fields_from(s, 0, 0)
}

/// Name and value of each named slot among the first `n`, in table order.
pub open spec fn entries_upto(f: Seq<Seq<char>>, n: int) -> Seq<(Seq<char>, Seq<char>)>
    decreases n,
{
    if n <= 0 {
        Seq::empty()
    } else if key_name(n - 1).len() > 0 {
        entries_upto(f, n - 1).push((key_name(n - 1), f[n - 1]))
    } else {
        entries_upto(f, n - 1)
    }
}

/// The entries of the configuration that the fields `f` of a reply give.
pub open spec fn config_entries(f: Seq<Seq<char>>) -> Seq<(Seq<char>, Seq<char>)> {
    entries_upto(f, CONFIG_FIELDS as int)
}

/// The value of the first entry named `k`.
pub open spec fn lookup(entries: Seq<(Seq<char>, Seq<char>)>, k: Seq<char>) -> Option<Seq<char>>
    decreases entries.len(),
{
    if entries.len() == 0 {
        None
    } else if entries[0].0 == k {
        Some(entries[0].1)
    } else {
        lookup(entries.drop_first(), k)
    }
}

/// Whether a reply has its envelope: `>` first and `;` last.
pub open spec fn framed(s: Seq<char>) -> bool {
    s.len() >= 2 && s[0] == '>' && s[s.len() - 1] == ';'
}

/// A reply without its envelope.
pub open spec fn unframed(s: Seq<char>) -> Seq<char> {
    s.subrange(1, s.len() - 1)
}

/// What a raw reply carries inside its envelope, if it is readable and framed.
pub open spec fn reply_payload(raw: Seq<u8>) -> Option<Seq<char>> {
    match response_text(raw) {
        Some(t) => if framed(t) {
            Some(unframed(t))
        } else {
            None
        },
        None => None,
    }
}

/// A readable reply that lacks its leading `>` or its trailing `;` carries
/// no payload, however well formed the rest of it is.
pub proof fn lemma_envelope_required(raw: Seq<u8>)
    requires
        response_text(raw) is Some,
        ({
            let t = response_text(raw)->0;
            t.len() == 0 || t[0] != '>' || t[t.len() - 1] != ';'
        }),
    ensures
        reply_payload(raw) is None,
{
}

/// The fields of a reply with one field per slot give each named key its
/// field, in table order, and leave out the reserved slot.
pub proof fn lemma_config_entries(f: Seq<Seq<char>>)
    requires
        f.len() == CONFIG_FIELDS,
    ensures
        config_entries(f).len() == CONFIG_FIELDS - 1,
        forall|i: int|
            0 <= i < CONFIG_FIELDS && i != 3 ==> lookup(config_entries(f), #[trigger] key_name(i))
                == Some(f[i]),
        forall|j: int|
            0 <= j < config_entries(f).len() ==> (#[trigger] config_entries(f)[j]).0.len() > 0,
        lookup(config_entries(f), key_name(3)) is None,
{
    reveal_strlit("ipv4");
    reveal_strlit("netmask");
    reveal_strlit("gateway");
    reveal_strlit("");
    reveal_strlit("power_persist");
    reveal_strlit("version");
    reveal_strlit("serial");
    reveal_strlit("dns");
    reveal_strlit("cloud_server");
    reveal_strlit("cloud_enabled");
    reveal_with_fuel(entries_upto, 11);
    let e = config_entries(f);
    assert(e =~= seq![
        (key_name(0), f[0]),
        (key_name(1), f[1]),
        (key_name(2), f[2]),
        (key_name(4), f[4]),
        (key_name(5), f[5]),
        (key_name(6), f[6]),
        (key_name(7), f[7]),
        (key_name(8), f[8]),
        (key_name(9), f[9]),
    ]);
    assert(key_name(0).len() == 4 && key_name(0)[0] == 'i');
    assert(key_name(1).len() == 7 && key_name(1)[0] == 'n');
    assert(key_name(2).len() == 7 && key_name(2)[0] == 'g');
    assert(key_name(3).len() == 0);
    assert(key_name(4).len() == 13 && key_name(4)[0] == 'p');
    assert(key_name(5).len() == 7 && key_name(5)[0] == 'v');
    assert(key_name(6).len() == 6 && key_name(6)[0] == 's');
    assert(key_name(7).len() == 3 && key_name(7)[0] == 'd');
    assert(key_name(8).len() == 12 && key_name(8)[0] == 'c');
    assert(key_name(9).len() == 13 && key_name(9)[0] == 'c');
    assert(key_name(8)[6] == 's' && key_name(9)[6] == 'e');
    assert forall|i: int| 0 <= i < CONFIG_FIELDS && i != 3 implies lookup(
        e,
        #[trigger] key_name(i),
    ) == Some(f[i]) by {
        let j = if i < 3 {
            i
        } else {
            i - 1
        };
        lemma_lookup_at(e, key_name(i), j);
    }
    lemma_lookup_absent(e, key_name(3));
}

proof fn lemma_lookup_at(e: Seq<(Seq<char>, Seq<char>)>, k: Seq<char>, j: int)
    requires
        0 <= j < e.len(),
        e[j].0 == k,
        forall|l: int| 0 <= l < j ==> e[l].0 != k,
    ensures
        lookup(e, k) == Some(e[j].1),
    decreases j,
{
    if j > 0 {
        lemma_lookup_at(e.drop_first(), k, j - 1);
    }
}

proof fn lemma_lookup_absent(e: Seq<(Seq<char>, Seq<char>)>, k: Seq<char>)
    requires
        forall|l: int| 0 <= l < e.len() ==> e[l].0 != k,
    ensures
        lookup(e, k) is None,
    decreases e.len(),
{
    if e.len() > 0 {
        lemma_lookup_absent(e.drop_first(), k);
    }
}

/// The request that reads every key: `#12222;`.
pub open spec fn get_request_bytes() -> Seq<u8> {
    seq![35u8, 49u8, 50u8, 50u8, 50u8, 50u8, 59u8]
}

/// The request that writes `value` to the slot selected by `sel`:
/// `#`, the selector, `2222,`, the value and `;`.
pub open spec fn set_request_bytes(sel: u8, value: Seq<u8>) -> Seq<u8> {
    seq![35u8, sel, 50u8, 50u8, 50u8, 50u8, 44u8] + value + seq![59u8]
}

/// The device's configuration as read in one reply: each named key with
/// its value, in table order.
pub struct ConfigMap {
    entries: Vec<(String, String)>,
}

impl View for ConfigMap {
    type V = Seq<(Seq<char>, Seq<char>)>;

    closed spec fn view(&self) -> Self::V {
        self.entries@.map_values(|e: (String, String)| (e.0@, e.1@))
    }
}

impl ConfigMap {
    /// Number of keys.
    pub fn len(&self) -> (r: usize)
        ensures
            r == self@.len(),
    {
        self.entries.len()
    }

    /// Name and value of entry `i`.
    pub fn entry(&self, i: usize) -> (r: (&String, &String))
        requires
            i < self@.len(),
        ensures
            r.0@ == self@[i as int].0,
            r.1@ == self@[i as int].1,
    {
        let e = &self.entries[i];
        (&e.0, &e.1)
    }

    /// The value of the key named `key`.
    pub fn get(&self, key: &str) -> (r: Option<&String>)
        ensures
            r is Some <==> lookup(self@, key@) is Some,
            r matches Some(v) ==> v@ == lookup(self@, key@)->0,
    {
        let n = self.entries.len();
        let mut i: usize = 0;
        assert(self@.subrange(0, n as int) =~= self@);
        while i < n
            invariant
                n == self@.len(),
                i <= n,
                lookup(self@, key@) == lookup(self@.subrange(i as int, n as int), key@),
            decreases n - i,
        {
            assert(self@.subrange(i as int, n as int).drop_first() =~= self@.subrange(
                i + 1,
                n as int,
            ));
            if str_eq(self.entries[i].0.as_str(), key) {
                return Some(&self.entries[i].1);
            }
            i = i + 1;
        }
        None
    }
}

fn str_eq(a: &str, b: &str) -> (r: bool)
    ensures
        r == (a@ == b@),
{
    let n = a.unicode_len();
    if n != b.unicode_len() {
        return false;
    }
    let mut i: usize = 0;
    while i < n
        invariant
            n == a@.len(),
            n == b@.len(),
            i <= n,
            forall|j: int| 0 <= j < i ==> a@[j] == b@[j],
        decreases n - i,
    {
        if a.get_char(i) != b.get_char(i) {
            return false;
        }
        i = i + 1;
    }
    assert(a@ =~= b@);
    true
}

fn key_name_str(i: usize) -> (r: &'static str)
    requires
        i < CONFIG_FIELDS,
    ensures
        r@ == key_name(i as int),
{
    if i == 0 {
        "ipv4"
    } else if i == 1 {
        "netmask"
    } else if i == 2 {
        "gateway"
    } else if i == 3 {
        ""
    } else if i == 4 {
        "power_persist"
    } else if i == 5 {
        "version"
    } else if i == 6 {
        "serial"
    } else if i == 7 {
        "dns"
    } else if i == 8 {
        "cloud_server"
    } else {
        "cloud_enabled"
    }
}

fn key_selector_byte(i: usize) -> (r: Option<u8>)
    requires
        i < CONFIG_FIELDS,
    ensures
        r == key_selector(i as int),
{
    if i <= 5 {
        Some(50 + i as u8)
    } else if i == 6 {
        None
    } else if i == 7 {
        Some(56)
    } else if i == 8 {
        Some(57)
    } else {
        Some(65)
    }
}

/// Finds the slot named `key`.
pub fn find_key(key: &str) -> (r: Option<usize>)
    ensures
        r matches Some(i) ==> i < CONFIG_FIELDS && key_index(key@) == Some(i as int),
        r is None ==> key_index(key@) is None,
{
    let mut i: usize = 0;
    while i < CONFIG_FIELDS
        invariant
            i <= CONFIG_FIELDS,
            key_index(key@) == key_index_from(key@, i as int),
        decreases CONFIG_FIELDS - i,
    {
        let name = key_name_str(i);
        if name.unicode_len() > 0 && str_eq(name, key) {
            return Some(i);
        }
        i = i + 1;
    }
    None
}

/// Splits `s` at each comma.
pub fn split_commas_exec(s: &str) -> (r: Vec<String>)
    ensures
        r@.len() == split_commas(s@).len(),
        forall|j: int| 0 <= j < r@.len() ==> #[trigger] r@[j]@ == split_commas(s@)[j],
{
    let n = s.unicode_len();
    let mut fields: Vec<String> = Vec::new();
    let mut start: usize = 0;
    let mut i: usize = 0;
    while i < n
        invariant
            n == s@.len(),
            start <= i <= n,
            split_commas(s@) == fields@.map_values(|f: String| f@) + fields_from(
                s@,
                start as int,
                i as int,
            ),
        decreases n - i,
    {
        if s.get_char(i) == ',' {
            let ghost before = fields@.map_values(|f: String| f@);
            let f = s.substring_char(start, i).to_owned();
            fields.push(f);
            assert(fields@.map_values(|f: String| f@) =~= before.push(s@.subrange(
                start as int,
                i as int,
            )));
            start = i + 1;
        }
        i = i + 1;
    }
    let ghost before = fields@.map_values(|f: String| f@);
    fields.push(s.substring_char(start, n).to_owned());
    assert(fields@.map_values(|f: String| f@) =~= before.push(s@.subrange(start as int, n as int)));
    assert(fields@.map_values(|f: String| f@) =~= split_commas(s@));
    assert forall|j: int| 0 <= j < fields@.len() implies #[trigger] fields@[j]@ == split_commas(
        s@,
    )[j] by {
        assert(fields@.map_values(|f: String| f@)[j] == fields@[j]@);
    }
    fields
}

/// Takes the envelope off a reply.
pub fn unframe(resp: &str) -> (r: Result<String, Error>)
    ensures
        r is Ok <==> framed(resp@),
        r matches Ok(p) ==> p@ == unframed(resp@),
        r matches Err(e) ==> e matches Error::Framing(_),
{
    let n = resp.unicode_len();
    if n == 0 || resp.get_char(0) != '>' {
        return Err(Error::Framing("Bad format for first char".to_owned()));
    }
    if n < 2 || resp.get_char(n - 1) != ';' {
        return Err(Error::Framing("Bad format for last char".to_owned()));
    }
    Ok(resp.substring_char(1, n - 1).to_owned())
}

/// Builds the request that reads every key.
pub fn get_request() -> (r: Vec<u8>)
    ensures
        r@ == get_request_bytes(),
{
    let r = vec![35u8, 49u8, 50u8, 50u8, 50u8, 50u8, 59u8];
    assert(r@ =~= get_request_bytes());
    r
}

/// Pairs the fields of a reply to a read with the key table.
pub fn parse_config(payload: &str) -> (r: Result<ConfigMap, Error>)
    ensures
        r is Ok <==> split_commas(payload@).len() == CONFIG_FIELDS,
        r matches Ok(m) ==> m@ == config_entries(split_commas(payload@)),
        r matches Err(e) ==> (e matches Error::FieldCount(n) && n == split_commas(payload@).len()),
{
    let fields = split_commas_exec(payload);
    if fields.len() != CONFIG_FIELDS {
        return Err(Error::FieldCount(fields.len()));
    }
    let ghost f = split_commas(payload@);
    let mut entries: Vec<(String, String)> = Vec::new();
    let mut i: usize = 0;
    while i < CONFIG_FIELDS
        invariant
            i <= CONFIG_FIELDS,
            f == split_commas(payload@),
            f.len() == CONFIG_FIELDS,
            fields@.len() == CONFIG_FIELDS,
            forall|j: int| 0 <= j < fields@.len() ==> #[trigger] fields@[j]@ == f[j],
            entries@.map_values(|e: (String, String)| (e.0@, e.1@)) == entries_upto(f, i as int),
        decreases CONFIG_FIELDS - i,
    {
        let name = key_name_str(i);
        if name.unicode_len() > 0 {
            let ghost before = entries@.map_values(|e: (String, String)| (e.0@, e.1@));
            let value = fields[i].clone();
            entries.push((name.to_owned(), value));
            assert(entries@.map_values(|e: (String, String)| (e.0@, e.1@)) =~= before.push(
                (key_name(i as int), f[i as int]),
            ));
        }
        i = i + 1;
    }
    Ok(ConfigMap { entries })
}

/// Decodes the raw reply to a read of every key.
pub fn decode_get(raw: &[u8]) -> (r: Result<ConfigMap, Error>)
    ensures
        r is Ok <==> reply_payload(raw@) is Some && split_commas(reply_payload(raw@)->0).len()
            == CONFIG_FIELDS,
        r matches Ok(m) ==> m@ == config_entries(split_commas(reply_payload(raw@)->0)),
        raw@.len() >= crate::wire::BUF_LEN ==> r matches Err(Error::Framing(_)),
        raw@.len() < crate::wire::BUF_LEN && !valid_utf8(raw@) ==> r matches Err(Error::Decode(_)),
        response_text(raw@) is Some && reply_payload(raw@) is None ==> r matches Err(
            Error::Framing(_),
        ),
        reply_payload(raw@) is Some && split_commas(reply_payload(raw@)->0).len()
            != CONFIG_FIELDS ==> r matches Err(Error::FieldCount(_)),
{
    let text = read_response(raw)?;
    let payload = unframe(text.as_str())?;
    parse_config(payload.as_str())
}

/// Builds the request that writes `value` to the key named `key`. Only
/// named slots with a selector can be written.
pub fn set_request(key: &str, value: &str) -> (r: Result<Vec<u8>, Error>)
    ensures
        r is Ok <==> key_index(key@) is Some && key_selector(key_index(key@)->0) is Some,
        r matches Ok(v) ==> v@ == set_request_bytes(
            key_selector(key_index(key@)->0)->0,
            value.spec_bytes(),
        ),
        r matches Err(e) ==> (e matches Error::KeyNotFound(k) && k@ == key@),
{
    let i = match find_key(key) {
        Some(i) => i,
        None => {
            return Err(Error::KeyNotFound(key.to_owned()));
        },
    };
    let sel = match key_selector_byte(i) {
        Some(sel) => sel,
        None => {
            return Err(Error::KeyNotFound(key.to_owned()));
        },
    };
    let mut r = vec![35u8, sel, 50u8, 50u8, 50u8, 50u8, 44u8];
    let ghost head = r@;
    let b = value.as_bytes();
    let mut j: usize = 0;
    while j < b.len()
        invariant
            j <= b@.len(),
            r@ == head + b@.subrange(0, j as int),
        decreases b@.len() - j,
    {
        r.push(b[j]);
        assert(b@.subrange(0, j + 1) =~= b@.subrange(0, j as int).push(b@[j as int]));
        j = j + 1;
    }
    r.push(59u8);
    assert(b@.subrange(0, b@.len() as int) =~= b@);
    assert(r@ =~= set_request_bytes(sel, value.spec_bytes()));
    Ok(r)
}

/// What the device's answer to a write means: `OK` is success, `ERR` a
/// refusal, anything else an unknown response.
pub fn check_set_reply(payload: &str) -> (r: Result<(), Error>)
    ensures
        payload@ == seq!['O', 'K'] ==> r is Ok,
        payload@ == seq!['E', 'R', 'R'] ==> r matches Err(Error::DeviceRejected),
        payload@ != seq!['O', 'K'] && payload@ != seq!['E', 'R', 'R'] ==> (r matches Err(
            Error::UnknownResponse(p),
        ) && p@ == payload@),
{
    let n = payload.unicode_len();
    if n == 2 && payload.get_char(0) == 'O' && payload.get_char(1) == 'K' {
        assert(payload@ =~= seq!['O', 'K']);
        return Ok(());
    }
    if n == 3 && payload.get_char(0) == 'E' && payload.get_char(1) == 'R' && payload.get_char(2)
        == 'R' {
        assert(payload@ =~= seq!['E', 'R', 'R']);
        return Err(Error::DeviceRejected);
    }
    proof {
        if payload@ == seq!['O', 'K'] {
            assert(payload@[0] == 'O' && payload@[1] == 'K');
        }
        if payload@ == seq!['E', 'R', 'R'] {
            assert(payload@[0] == 'E' && payload@[1] == 'R' && payload@[2] == 'R');
        }
    }
    Err(Error::UnknownResponse(payload.to_owned()))
}

/// Decodes the raw reply to a write.
pub fn decode_set(raw: &[u8]) -> (r: Result<(), Error>)
    ensures
        r is Ok <==> reply_payload(raw@) == Some(seq!['O', 'K']),
        reply_payload(raw@) == Some(seq!['E', 'R', 'R']) ==> r matches Err(Error::DeviceRejected),
        raw@.len() >= crate::wire::BUF_LEN ==> r matches Err(Error::Framing(_)),
        raw@.len() < crate::wire::BUF_LEN && !valid_utf8(raw@) ==> r matches Err(Error::Decode(_)),
        response_text(raw@) is Some && reply_payload(raw@) is None ==> r matches Err(
            Error::Framing(_),
        ),
        reply_payload(raw@) is Some && reply_payload(raw@)->0 != seq!['O', 'K']
            && reply_payload(raw@)->0 != seq!['E', 'R', 'R'] ==> (r matches Err(
            Error::UnknownResponse(q),
        ) && q@ == reply_payload(raw@)->0),
{
    let text = read_response(raw)?;
    let payload = unframe(text.as_str())?;
    check_set_reply(payload.as_str())
}

} // verus!
