//! Parsing the wifi payload of a QR code: a `WIFI:` string of fields
//! separated by `;`, each field a `:`-separated key and value, yielding
//! the network name, the security type and the password.

use vstd::prelude::*;
use vstd::string::*;

verus! {

/// The fields of `s` between occurrences of `sep`, scanned left to right
/// from position `i` with the partial field `cur` and the finished fields
/// `acc`. Empty fields are kept, so a string without the separator is one
/// field and an empty string is one empty field.
pub open spec fn fields_scan(s: Seq<char>, sep: char, i: int, cur: Seq<char>, acc: Seq<Seq<char>>) -> Seq<Seq<char>>
    decreases s.len() - i,
{
    if i < 0 || i >= s.len() {
        acc.push(cur)
    } else if s[i] == sep {
        fields_scan(s, sep, i + 1, Seq::empty(), acc.push(cur))
    } else {
        fields_scan(s, sep, i + 1, cur.push(s[i]), acc)
    }
}

/// The fields of `s` between occurrences of `sep`, empty fields kept.
pub open spec fn fields(s: Seq<char>, sep: char) -> Seq<Seq<char>> {
    fields_scan(s, sep, 0, Seq::empty(), Seq::empty())
}

/// As [`fields_scan`], but finished empty fields are dropped.
pub open spec fn nonempty_fields_scan(s: Seq<char>, sep: char, i: int, cur: Seq<char>, acc: Seq<Seq<char>>) -> Seq<Seq<char>>
    decreases s.len() - i,
{
    if i < 0 || i >= s.len() {
        if cur.len() > 0 {
            acc.push(cur)
        } else {
            acc
        }
    } else if s[i] == sep {
        nonempty_fields_scan(
            s,
            sep,
            i + 1,
            Seq::empty(),
            if cur.len() > 0 {
                acc.push(cur)
            } else {
                acc
            },
        )
    } else {
        nonempty_fields_scan(s, sep, i + 1, cur.push(s[i]), acc)
    }
}

/// The nonempty fields of `s` between occurrences of `sep`.
pub open spec fn nonempty_fields(s: Seq<char>, sep: char) -> Seq<Seq<char>> {
    nonempty_fields_scan(s, sep, 0, Seq::empty(), Seq::empty())
}

/// Splits `s` at every occurrence of `sep`, keeping empty fields, as
/// [`fields`] describes.
pub fn split_fields(s: &str, sep: char) -> (r: Vec<String>)
    ensures
        r@.map_values(|t: String| t@) == fields(s@, sep),
{
    let n = s.unicode_len();
    let mut acc: Vec<String> = Vec::new();
    let mut start: usize = 0;
    let mut i: usize = 0;
    proof {
        assert(s@.subrange(0, 0) =~= Seq::<char>::empty());
        assert(acc@.map_values(|t: String| t@) =~= Seq::<Seq<char>>::empty());
    }
    while i < n
        invariant
            n == s@.len(),
            0 <= start <= i <= n,
            fields(s@, sep) == fields_scan(
                s@,
                sep,
                i as int,
                s@.subrange(start as int, i as int),
                acc@.map_values(|t: String| t@),
            ),
        decreases n - i,
    {
        let c = s.get_char(i);
        if c == sep {
            let token = s.substring_char(start, i).to_owned();
            proof {
                assert(acc@.push(token).map_values(|t: String| t@) =~= acc@.map_values(
                    |t: String| t@,
                ).push(s@.subrange(start as int, i as int)));
            }
            acc.push(token);
            start = i + 1;
            proof {
                assert(s@.subrange(start as int, start as int) =~= Seq::<char>::empty());
            }
        } else {
            proof {
                assert(s@.subrange(start as int, i + 1) =~= s@.subrange(start as int, i as int).push(
                    s@[i as int],
                ));
            }
        }
        i = i + 1;
    }
    let token = s.substring_char(start, n).to_owned();
    proof {
        assert(acc@.push(token).map_values(|t: String| t@) =~= acc@.map_values(
            |t: String| t@,
        ).push(s@.subrange(start as int, n as int)));
    }
    acc.push(token);
    acc
}

/// Splits `s` at every occurrence of `sep`, dropping empty fields, as
/// [`nonempty_fields`] describes.
pub fn split_nonempty_fields(s: &str, sep: char) -> (r: Vec<String>)
    ensures
        r@.map_values(|t: String| t@) == nonempty_fields(s@, sep),
{
    let n = s.unicode_len();
    let mut acc: Vec<String> = Vec::new();
    let mut start: usize = 0;
    let mut i: usize = 0;
    proof {
        assert(s@.subrange(0, 0) =~= Seq::<char>::empty());
        assert(acc@.map_values(|t: String| t@) =~= Seq::<Seq<char>>::empty());
    }
    while i < n
        invariant
            n == s@.len(),
            0 <= start <= i <= n,
            nonempty_fields(s@, sep) == nonempty_fields_scan(
                s@,
                sep,
                i as int,
                s@.subrange(start as int, i as int),
                acc@.map_values(|t: String| t@),
            ),
        decreases n - i,
    {
        let c = s.get_char(i);
        if c == sep {
            if start < i {
                let token = s.substring_char(start, i).to_owned();
                proof {
                    assert(acc@.push(token).map_values(|t: String| t@) =~= acc@.map_values(
                        |t: String| t@,
                    ).push(s@.subrange(start as int, i as int)));
                }
                acc.push(token);
            } else {
                proof {
                    assert(s@.subrange(start as int, i as int) =~= Seq::<char>::empty());
                }
            }
            start = i + 1;
            proof {
                assert(s@.subrange(start as int, start as int) =~= Seq::<char>::empty());
            }
        } else {
            proof {
                assert(s@.subrange(start as int, i + 1) =~= s@.subrange(start as int, i as int).push(
                    s@[i as int],
                ));
            }
        }
        i = i + 1;
    }
    if start < n {
        let token = s.substring_char(start, n).to_owned();
        proof {
            assert(acc@.push(token).map_values(|t: String| t@) =~= acc@.map_values(
                |t: String| t@,
            ).push(s@.subrange(start as int, n as int)));
        }
        acc.push(token);
    } else {
        proof {
            assert(s@.subrange(start as int, n as int) =~= Seq::<char>::empty());
        }
    }
    acc
}

/// The security type named in a wifi QR payload.
#[derive(Debug)]
pub enum WifiType {
    WEP,
    WPA,
    Blank,
}

/// Which security type a field value names; anything but the two known
/// names is blank security.
pub open spec fn wifi_type_of(s: Seq<char>) -> WifiType {
    if s == "WPA"@ {
        WifiType::WPA
    } else if s == "WEP"@ {
        WifiType::WEP
    } else {
        WifiType::Blank
    }
}

impl WifiType {
    /// Reads a security-type name, as [`wifi_type_of`] describes.
    pub fn from(s: &str) -> (t: WifiType)
        ensures
            t == wifi_type_of(s@),
    {
        let owned = s.to_owned();
        if owned == String::from_str("WPA") {
            WifiType::WPA
        } else if owned == String::from_str("WEP") {
            WifiType::WEP
        } else {
            WifiType::Blank
        }
    }
}

/// A parsed wifi QR payload.
#[derive(Debug)]
pub struct Wifi {
    pub ssid_name: String,
    pub wifi_type: WifiType,
    pub password: String,
}

/// Whether a field announces a wifi payload: it opens with `WIFI`.
pub open spec fn starts_with_wifi(t: Seq<char>) -> bool {
    t.len() >= 4 && t.subrange(0, 4) == "WIFI"@
}

/// What a wifi QR payload holds, if it is well formed: the nonempty
/// `;`-fields must number at least three, the first must open with `WIFI`,
/// and the three fields must have enough `:`-parts to carry the network
/// name, the security type and the password, which are returned in that
/// order.
pub open spec fn qr_wifi(code: Seq<char>) -> Option<(Seq<char>, Seq<char>, Seq<char>)> {
    let toks = nonempty_fields(code, ';');
    if toks.len() >= 3 && starts_with_wifi(toks[0]) {
        let ssid_parts = fields(toks[0], ':');
        let type_parts = fields(toks[1], ':');
        let pw_parts = fields(toks[2], ':');
        if ssid_parts.len() >= 3 && type_parts.len() >= 2 && pw_parts.len() >= 2 {
            Some((ssid_parts[2], type_parts[1], pw_parts[1]))
        } else {
            None
        }
    } else {
        None
    }
}

/// Parses a wifi QR payload. Returns the parsed fields exactly when
/// [`qr_wifi`] finds the payload well formed, and nothing otherwise — a
/// malformed payload is rejected rather than trusted.
pub fn parse_qr_code_string(code: &String) -> (r: Option<Wifi>)
    ensures
        (r is Some) == (qr_wifi(code@) is Some),
        (match (r, qr_wifi(code@)) {
            (Some(w), Some(parts)) => {
                &&& w.ssid_name@ == parts.0
                &&& w.wifi_type == wifi_type_of(parts.1)
                &&& w.password@ == parts.2
            },
            (None, None) => true,
            _ => false,
        }),
{
    let toks = split_nonempty_fields(code.as_str(), ';');
    proof {
        assert(toks@.map_values(|t: String| t@).len() == toks@.len());
    }
    if toks.len() < 3 {
        return None;
    }
    proof {
        assert(toks@[0]@ == nonempty_fields(code@, ';')[0]);
        assert(toks@[1]@ == nonempty_fields(code@, ';')[1]);
        assert(toks@[2]@ == nonempty_fields(code@, ';')[2]);
    }
    if toks[0].as_str().unicode_len() < 4 {
        return None;
    }
    let head = toks[0].as_str().substring_char(0, 4).to_owned();
    if !(head == String::from_str("WIFI")) {
        return None;
    }
    let ssid_parts = split_fields(toks[0].as_str(), ':');
    let type_parts = split_fields(toks[1].as_str(), ':');
    let pw_parts = split_fields(toks[2].as_str(), ':');
    proof {
        assert(ssid_parts@.map_values(|t: String| t@).len() == ssid_parts@.len());
        assert(type_parts@.map_values(|t: String| t@).len() == type_parts@.len());
        assert(pw_parts@.map_values(|t: String| t@).len() == pw_parts@.len());
    }
    if ssid_parts.len() >= 3 && type_parts.len() >= 2 && pw_parts.len() >= 2 {
        proof {
            assert(ssid_parts@[2]@ == fields(toks@[0]@, ':')[2]);
            assert(type_parts@[1]@ == fields(toks@[1]@, ':')[1]);
            assert(pw_parts@[1]@ == fields(toks@[2]@, ':')[1]);
        }
        Some(
            Wifi {
                ssid_name: ssid_parts[2].clone(),
                wifi_type: WifiType::from(type_parts[1].as_str()),
                password: pw_parts[1].clone(),
            },
        )
    } else {
        None
    }
}

} // verus!
