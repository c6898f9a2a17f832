//! Naming of chunk files. A topic's records are split across sequentially
//! numbered chunk files, and each file's name encodes the root path, the
//! topic, and the chunk number as 16 zero-padded lower-case hexadecimal
//! digits, the three parts separated by `-`.

use vstd::prelude::*;
use vstd::string::StringExecFns;

verus! {

/// The sixteen lower-case hexadecimal digit characters, in value order.
pub open spec fn hex_chars() -> Seq<char> {
    seq!['0', '1', '2', '3', '4', '5', '6', '7', '8', '9', 'a', 'b', 'c', 'd', 'e', 'f']
}

/// The last `k` lower-case hexadecimal digits of `n`, most significant
/// first, zero-padded on the left.
pub open spec fn spec_hex_digits(n: int, k: nat) -> Seq<char>
    recommends
        n >= 0,
    decreases k,
{
    if k == 0 {
        Seq::empty()
    } else {
        spec_hex_digits(n / 16, (k - 1) as nat).push(hex_chars()[n % 16])
    }
}

/// The on-disk name of a chunk file: the root path, the topic name, and the
/// 16-hex-digit zero-padded chunk number, separated by `-`.
pub open spec fn spec_chunk_file_name(root: Seq<char>, topic: Seq<char>, file_num: u64) -> Seq<
    char,
> {
    root + seq!['-'] + topic + seq!['-'] + spec_hex_digits(file_num as int, 16)
}

/// The lower-case hexadecimal digit of a value below 16, as a one-character
/// string.
fn hex_digit_str(d: u64) -> (r: &'static str)
    requires
        d < 16,
    ensures
        r@ == seq![hex_chars()[d as int]],
{
    match d {
        0 => {
            proof {
                reveal_strlit("0");
            }
            "0"
        },
        1 => {
            proof {
                reveal_strlit("1");
            }
            "1"
        },
        2 => {
            proof {
                reveal_strlit("2");
            }
            "2"
        },
        3 => {
            proof {
                reveal_strlit("3");
            }
            "3"
        },
        4 => {
            proof {
                reveal_strlit("4");
            }
            "4"
        },
        5 => {
            proof {
                reveal_strlit("5");
            }
            "5"
        },
        6 => {
            proof {
                reveal_strlit("6");
            }
            "6"
        },
        7 => {
            proof {
                reveal_strlit("7");
            }
            "7"
        },
        8 => {
            proof {
                reveal_strlit("8");
            }
            "8"
        },
        9 => {
            proof {
                reveal_strlit("9");
            }
            "9"
        },
        10 => {
            proof {
                reveal_strlit("a");
            }
            "a"
        },
        11 => {
            proof {
                reveal_strlit("b");
            }
            "b"
        },
        12 => {
            proof {
                reveal_strlit("c");
            }
            "c"
        },
        13 => {
            proof {
                reveal_strlit("d");
            }
            "d"
        },
        14 => {
            proof {
                reveal_strlit("e");
            }
            "e"
        },
        _ => {
            proof {
                reveal_strlit("f");
            }
            "f"
        },
    }
}

/// The last `k` hexadecimal digits of `n`, zero-padded, as a string.
fn hex_digits(n: u64, k: usize) -> (r: String)
    ensures
        r@ == spec_hex_digits(n as int, k as nat),
    decreases k,
{
    if k == 0 {
        String::new()
    } else {
        let mut s = hex_digits(n / 16, k - 1);
        let d = hex_digit_str(n % 16);
        s.append(d);
        proof {
            assert(s@ =~= spec_hex_digits(n as int, k as nat));
        }
        s
    }
}

/// The name of chunk file `file_num` of a topic: root, topic name, and the
/// 16-hex-digit zero-padded chunk number, separated by `-`.
pub fn chunk_file_name(root: &str, topic: &str, file_num: u64) -> (r: String)
    ensures
        r@ == spec_chunk_file_name(root@, topic@, file_num),
{
    proof {
        reveal_strlit("-");
    }
    let mut s = root.to_owned();
    s.append("-");
    s.append(topic);
    s.append("-");
    let h = hex_digits(file_num, 16);
    s.append(h.as_str());
    proof {
        assert(s@ =~= spec_chunk_file_name(root@, topic@, file_num));
    }
    s
}

} // verus!
