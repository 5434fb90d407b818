//! Composing the subscription request that selects what the stream sends.
use vstd::prelude::*;
use vstd::string::{StrSliceExecFns, StringExecFns};
use vstd::seq_lib::lemma_concat_associative;
use crate::text::str_eq;

verus! {

/// What `str::to_lowercase` returns on a given text; the result depends on
/// the characters alone.
pub uninterp spec fn lower_of(s: Seq<char>) -> Seq<char>;

/// Relies on `str::to_lowercase`: Unicode lowercasing, deterministic in the
/// input text.
#[verifier::external_body]
fn to_lowercase(s: &str) -> (r: String)
    ensures
        r@ == lower_of(s@),
{
    s.to_lowercase()
}

/// The model of an optional text.
pub open spec fn opt_text(o: Option<String>) -> Option<Seq<char>> {
    match o {
        Some(s) => Some(s@),
        None => None,
    }
}

/// One quoted option, its key prefix followed by the value and a closing
/// quote with the separating comma, or nothing.
pub open spec fn quoted_part(pre: Seq<char>, v: Option<Seq<char>>) -> Seq<char> {
    match v {
        Some(t) => pre + t + "\","@,
        None => Seq::<char>::empty(),
    }
}

/// The text of a boolean.
pub open spec fn bool_text(b: bool) -> Seq<char> {
    if b {
        "true"@
    } else {
        "false"@
    }
}

/// The subscription request for the given filters: a JSON object naming the
/// host (unless it is `all`, in any case), the optional filters that were
/// given, and the two specificity switches, in that order.
pub open spec fn compose_spec(
    host: Seq<char>,
    msg_type: Option<Seq<char>>,
    require: Option<Seq<char>>,
    peer: Option<Seq<char>>,
    prefix: Option<Seq<char>>,
    path: Option<Seq<char>>,
    more_specific: bool,
    less_specific: bool,
) -> Seq<char> {
    "{\"type\": \"ris_subscribe\", \"data\":{ "@ + (if lower_of(host) == "all"@ {
        Seq::<char>::empty()
    } else {
        "\"host\": \""@ + host + "\","@
    }) + quoted_part("\"type\": \""@, msg_type) + quoted_part("\"require\": \""@, require)
        + quoted_part("\"peer\": \""@, peer) + quoted_part("\"prefix\": \""@, prefix)
        + quoted_part("\"path\": \""@, path) + "\"moreSpecific\": "@
        + bool_text(more_specific) + ","@ + "\"lessSpecific\": "@ + bool_text(less_specific)
        + " } }"@
}

/// Builds the subscription request to send before decodable texts start
/// arriving.
#[allow(clippy::too_many_arguments)]
pub fn compose_subscription_message(
    host: &String,
    msg_type: &Option<String>,
    require: &Option<String>,
    peer: &Option<String>,
    prefix: &Option<String>,
    path: &Option<String>,
    more_specific: &bool,
    less_specific: &bool,
) -> (r: String)
    ensures
        r@ == compose_spec(
            host@,
            opt_text(*msg_type),
            opt_text(*require),
            opt_text(*peer),
            opt_text(*prefix),
            opt_text(*path),
            *more_specific,
            *less_specific,
        ),
{
    let mut out = String::new();
    out.append("{\"type\": \"ris_subscribe\", \"data\":{ ");
    let ghost p0 = "{\"type\": \"ris_subscribe\", \"data\":{ "@;
    proof {
        Seq::<char>::add_empty_left(Seq::<char>::empty(), p0);
    }
    let lower = to_lowercase(host.as_str());
    let ghost p1 = p0 + (if lower_of(host@) == "all"@ {
        Seq::<char>::empty()
    } else {
        "\"host\": \""@ + host@ + "\","@
    });
    if !str_eq(lower.as_str(), "all") {
        out.append("\"host\": \"");
        out.append(host.as_str());
        out.append("\",");
        proof {
            lemma_concat_associative(p0, "\"host\": \""@, host@);
            lemma_concat_associative(p0, "\"host\": \""@ + host@, "\","@);
        }
    } else {
        proof {
            Seq::<char>::add_empty_right(p0, Seq::<char>::empty());
        }
    }
    proof {
        assert(out@ == p1);
    }
    let ghost p2 = p1 + quoted_part("\"type\": \""@, opt_text(*msg_type));
    match msg_type {
        Some(t) => {
            out.append("\"type\": \"");
            out.append(t.as_str());
            out.append("\",");
            proof {
                lemma_concat_associative(p1, "\"type\": \""@, t@);
                lemma_concat_associative(p1, "\"type\": \""@ + t@, "\","@);
            }
        },
        None => {
            proof {
                Seq::<char>::add_empty_right(p1, Seq::<char>::empty());
            }
        },
    }
    proof {
        assert(out@ == p2);
    }
    let ghost p3 = p2 + quoted_part("\"require\": \""@, opt_text(*require));
    match require {
        Some(t) => {
            out.append("\"require\": \"");
            out.append(t.as_str());
            out.append("\",");
            proof {
                lemma_concat_associative(p2, "\"require\": \""@, t@);
                lemma_concat_associative(p2, "\"require\": \""@ + t@, "\","@);
            }
        },
        None => {
            proof {
                Seq::<char>::add_empty_right(p2, Seq::<char>::empty());
            }
        },
    }
    proof {
        assert(out@ == p3);
    }
    let ghost p4 = p3 + quoted_part("\"peer\": \""@, opt_text(*peer));
    match peer {
        Some(t) => {
            out.append("\"peer\": \"");
            out.append(t.as_str());
            out.append("\",");
            proof {
                lemma_concat_associative(p3, "\"peer\": \""@, t@);
                lemma_concat_associative(p3, "\"peer\": \""@ + t@, "\","@);
            }
        },
        None => {
            proof {
                Seq::<char>::add_empty_right(p3, Seq::<char>::empty());
            }
        },
    }
    proof {
        assert(out@ == p4);
    }
    let ghost p5 = p4 + quoted_part("\"prefix\": \""@, opt_text(*prefix));
    match prefix {
        Some(t) => {
            out.append("\"prefix\": \"");
            out.append(t.as_str());
            out.append("\",");
            proof {
                lemma_concat_associative(p4, "\"prefix\": \""@, t@);
                lemma_concat_associative(p4, "\"prefix\": \""@ + t@, "\","@);
            }
        },
        None => {
            proof {
                Seq::<char>::add_empty_right(p4, Seq::<char>::empty());
            }
        },
    }
    proof {
        assert(out@ == p5);
    }
    let ghost p6 = p5 + quoted_part("\"path\": \""@, opt_text(*path));
    match path {
        Some(t) => {
            out.append("\"path\": \"");
            out.append(t.as_str());
            out.append("\",");
            proof {
                lemma_concat_associative(p5, "\"path\": \""@, t@);
                lemma_concat_associative(p5, "\"path\": \""@ + t@, "\","@);
            }
        },
        None => {
            proof {
                Seq::<char>::add_empty_right(p5, Seq::<char>::empty());
            }
        },
    }
    proof {
        assert(out@ == p6);
    }
    out.append("\"moreSpecific\": ");
    if *more_specific {
        out.append("true");
    } else {
        out.append("false");
    }
    out.append(",");
    let ghost p7 = p6 + "\"moreSpecific\": "@ + bool_text(*more_specific) + ","@;
    proof {
        assert(out@ == p7);
    }
    out.append("\"lessSpecific\": ");
    if *less_specific {
        out.append("true");
    } else {
        out.append("false");
    }
    out.append(" } }");
    proof {
        assert(out@ == p7 + "\"lessSpecific\": "@ + bool_text(*less_specific) + " } }"@);
    }
    out
}

} // verus!
