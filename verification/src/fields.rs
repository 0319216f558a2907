//! Field name constants: the single source of truth for field identity.
//! Every codec compares raw names against these, at the spec level through
//! the `*_name` functions (the byte rendering of each name) and in
//! executable code through the `&str` constants.

use vstd::prelude::*;
use vstd::string::StringSliceAdditionalSpecFns;

use crate::bytestr::{byte_free, lemma_encode_utf8_injective};

verus! {

pub const TX_ID: &'static str = "TX_ID";

pub const TX_TYPE: &'static str = "TX_TYPE";

pub const STATUS: &'static str = "STATUS";

pub const FROM_USER: &'static str = "FROM_USER_ID";

pub const TO_USER: &'static str = "TO_USER_ID";

pub const TIMESTAMP: &'static str = "TIMESTAMP";

pub const AMOUNT: &'static str = "AMOUNT";

pub const DESCRIPTION: &'static str = "DESCRIPTION";

/// The bytes of the name of the tx_id field.
pub open spec fn tx_id_name() -> Seq<u8> {
    "TX_ID".spec_bytes()
}

/// The bytes of the name of the tx_type field.
pub open spec fn tx_type_name() -> Seq<u8> {
    "TX_TYPE".spec_bytes()
}

/// The bytes of the name of the status field.
pub open spec fn status_name() -> Seq<u8> {
    "STATUS".spec_bytes()
}

/// The bytes of the name of the from_user field.
pub open spec fn from_user_name() -> Seq<u8> {
    "FROM_USER_ID".spec_bytes()
}

/// The bytes of the name of the to_user field.
pub open spec fn to_user_name() -> Seq<u8> {
    "TO_USER_ID".spec_bytes()
}

/// The bytes of the name of the timestamp field.
pub open spec fn timestamp_name() -> Seq<u8> {
    "TIMESTAMP".spec_bytes()
}

/// The bytes of the name of the amount field.
pub open spec fn amount_name() -> Seq<u8> {
    "AMOUNT".spec_bytes()
}

/// The bytes of the name of the description field.
pub open spec fn description_name() -> Seq<u8> {
    "DESCRIPTION".spec_bytes()
}

/// The eight field names differ pairwise, and so do the renderings of
/// the transaction types and of the statuses.
pub proof fn lemma_literals_distinct()
    ensures
        "TX_ID"@ != "TX_TYPE"@,
        "TX_ID"@ != "STATUS"@,
        "TX_ID"@ != "FROM_USER_ID"@,
        "TX_ID"@ != "TO_USER_ID"@,
        "TX_ID"@ != "TIMESTAMP"@,
        "TX_ID"@ != "AMOUNT"@,
        "TX_ID"@ != "DESCRIPTION"@,
        "TX_TYPE"@ != "STATUS"@,
        "TX_TYPE"@ != "FROM_USER_ID"@,
        "TX_TYPE"@ != "TO_USER_ID"@,
        "TX_TYPE"@ != "TIMESTAMP"@,
        "TX_TYPE"@ != "AMOUNT"@,
        "TX_TYPE"@ != "DESCRIPTION"@,
        "STATUS"@ != "FROM_USER_ID"@,
        "STATUS"@ != "TO_USER_ID"@,
        "STATUS"@ != "TIMESTAMP"@,
        "STATUS"@ != "AMOUNT"@,
        "STATUS"@ != "DESCRIPTION"@,
        "FROM_USER_ID"@ != "TO_USER_ID"@,
        "FROM_USER_ID"@ != "TIMESTAMP"@,
        "FROM_USER_ID"@ != "AMOUNT"@,
        "FROM_USER_ID"@ != "DESCRIPTION"@,
        "TO_USER_ID"@ != "TIMESTAMP"@,
        "TO_USER_ID"@ != "AMOUNT"@,
        "TO_USER_ID"@ != "DESCRIPTION"@,
        "TIMESTAMP"@ != "AMOUNT"@,
        "TIMESTAMP"@ != "DESCRIPTION"@,
        "AMOUNT"@ != "DESCRIPTION"@,
        "DEPOSIT"@ != "TRANSFER"@,
        "DEPOSIT"@ != "WITHDRAWAL"@,
        "TRANSFER"@ != "WITHDRAWAL"@,
        "SUCCESS"@ != "FAILURE"@,
        "SUCCESS"@ != "PENDING"@,
        "FAILURE"@ != "PENDING"@,
{
    reveal_strlit("TX_ID");
    reveal_strlit("TX_TYPE");
    reveal_strlit("STATUS");
    reveal_strlit("FROM_USER_ID");
    reveal_strlit("TO_USER_ID");
    reveal_strlit("TIMESTAMP");
    reveal_strlit("AMOUNT");
    reveal_strlit("DESCRIPTION");
    reveal_strlit("DEPOSIT");
    reveal_strlit("TRANSFER");
    reveal_strlit("WITHDRAWAL");
    reveal_strlit("SUCCESS");
    reveal_strlit("FAILURE");
    reveal_strlit("PENDING");
    assert("TX_ID"@.len() == 5);
    assert("TX_TYPE"@.len() == 7);
    assert("STATUS"@.len() == 6);
    assert("FROM_USER_ID"@.len() == 12);
    assert("TO_USER_ID"@.len() == 10);
    assert("TIMESTAMP"@.len() == 9);
    assert("AMOUNT"@.len() == 6);
    assert("DESCRIPTION"@.len() == 11);
    assert("DEPOSIT"@.len() == 7);
    assert("TRANSFER"@.len() == 8);
    assert("WITHDRAWAL"@.len() == 10);
    assert("SUCCESS"@.len() == 7);
    assert("FAILURE"@.len() == 7);
    assert("PENDING"@.len() == 7);
    assert("STATUS"@[0] != "AMOUNT"@[0]);
    assert("SUCCESS"@[0] != "FAILURE"@[0]);
    assert("SUCCESS"@[0] != "PENDING"@[0]);
    assert("FAILURE"@[0] != "PENDING"@[0]);
}

/// The byte renderings of the eight field names differ pairwise, and so
/// do those of the transaction types and of the statuses.
pub proof fn lemma_name_bytes_distinct()
    ensures
        "TX_ID".spec_bytes() != "TX_TYPE".spec_bytes(),
        "TX_ID".spec_bytes() != "STATUS".spec_bytes(),
        "TX_ID".spec_bytes() != "FROM_USER_ID".spec_bytes(),
        "TX_ID".spec_bytes() != "TO_USER_ID".spec_bytes(),
        "TX_ID".spec_bytes() != "TIMESTAMP".spec_bytes(),
        "TX_ID".spec_bytes() != "AMOUNT".spec_bytes(),
        "TX_ID".spec_bytes() != "DESCRIPTION".spec_bytes(),
        "TX_TYPE".spec_bytes() != "STATUS".spec_bytes(),
        "TX_TYPE".spec_bytes() != "FROM_USER_ID".spec_bytes(),
        "TX_TYPE".spec_bytes() != "TO_USER_ID".spec_bytes(),
        "TX_TYPE".spec_bytes() != "TIMESTAMP".spec_bytes(),
        "TX_TYPE".spec_bytes() != "AMOUNT".spec_bytes(),
        "TX_TYPE".spec_bytes() != "DESCRIPTION".spec_bytes(),
        "STATUS".spec_bytes() != "FROM_USER_ID".spec_bytes(),
        "STATUS".spec_bytes() != "TO_USER_ID".spec_bytes(),
        "STATUS".spec_bytes() != "TIMESTAMP".spec_bytes(),
        "STATUS".spec_bytes() != "AMOUNT".spec_bytes(),
        "STATUS".spec_bytes() != "DESCRIPTION".spec_bytes(),
        "FROM_USER_ID".spec_bytes() != "TO_USER_ID".spec_bytes(),
        "FROM_USER_ID".spec_bytes() != "TIMESTAMP".spec_bytes(),
        "FROM_USER_ID".spec_bytes() != "AMOUNT".spec_bytes(),
        "FROM_USER_ID".spec_bytes() != "DESCRIPTION".spec_bytes(),
        "TO_USER_ID".spec_bytes() != "TIMESTAMP".spec_bytes(),
        "TO_USER_ID".spec_bytes() != "AMOUNT".spec_bytes(),
        "TO_USER_ID".spec_bytes() != "DESCRIPTION".spec_bytes(),
        "TIMESTAMP".spec_bytes() != "AMOUNT".spec_bytes(),
        "TIMESTAMP".spec_bytes() != "DESCRIPTION".spec_bytes(),
        "AMOUNT".spec_bytes() != "DESCRIPTION".spec_bytes(),
        "DEPOSIT".spec_bytes() != "TRANSFER".spec_bytes(),
        "DEPOSIT".spec_bytes() != "WITHDRAWAL".spec_bytes(),
        "TRANSFER".spec_bytes() != "WITHDRAWAL".spec_bytes(),
        "SUCCESS".spec_bytes() != "FAILURE".spec_bytes(),
        "SUCCESS".spec_bytes() != "PENDING".spec_bytes(),
        "FAILURE".spec_bytes() != "PENDING".spec_bytes(),
{
    lemma_literals_distinct();
    lemma_encode_utf8_injective("TX_ID"@, "TX_TYPE"@);
    lemma_encode_utf8_injective("TX_ID"@, "STATUS"@);
    lemma_encode_utf8_injective("TX_ID"@, "FROM_USER_ID"@);
    lemma_encode_utf8_injective("TX_ID"@, "TO_USER_ID"@);
    lemma_encode_utf8_injective("TX_ID"@, "TIMESTAMP"@);
    lemma_encode_utf8_injective("TX_ID"@, "AMOUNT"@);
    lemma_encode_utf8_injective("TX_ID"@, "DESCRIPTION"@);
    lemma_encode_utf8_injective("TX_TYPE"@, "STATUS"@);
    lemma_encode_utf8_injective("TX_TYPE"@, "FROM_USER_ID"@);
    lemma_encode_utf8_injective("TX_TYPE"@, "TO_USER_ID"@);
    lemma_encode_utf8_injective("TX_TYPE"@, "TIMESTAMP"@);
    lemma_encode_utf8_injective("TX_TYPE"@, "AMOUNT"@);
    lemma_encode_utf8_injective("TX_TYPE"@, "DESCRIPTION"@);
    lemma_encode_utf8_injective("STATUS"@, "FROM_USER_ID"@);
    lemma_encode_utf8_injective("STATUS"@, "TO_USER_ID"@);
    lemma_encode_utf8_injective("STATUS"@, "TIMESTAMP"@);
    lemma_encode_utf8_injective("STATUS"@, "AMOUNT"@);
    lemma_encode_utf8_injective("STATUS"@, "DESCRIPTION"@);
    lemma_encode_utf8_injective("FROM_USER_ID"@, "TO_USER_ID"@);
    lemma_encode_utf8_injective("FROM_USER_ID"@, "TIMESTAMP"@);
    lemma_encode_utf8_injective("FROM_USER_ID"@, "AMOUNT"@);
    lemma_encode_utf8_injective("FROM_USER_ID"@, "DESCRIPTION"@);
    lemma_encode_utf8_injective("TO_USER_ID"@, "TIMESTAMP"@);
    lemma_encode_utf8_injective("TO_USER_ID"@, "AMOUNT"@);
    lemma_encode_utf8_injective("TO_USER_ID"@, "DESCRIPTION"@);
    lemma_encode_utf8_injective("TIMESTAMP"@, "AMOUNT"@);
    lemma_encode_utf8_injective("TIMESTAMP"@, "DESCRIPTION"@);
    lemma_encode_utf8_injective("AMOUNT"@, "DESCRIPTION"@);
    lemma_encode_utf8_injective("DEPOSIT"@, "TRANSFER"@);
    lemma_encode_utf8_injective("DEPOSIT"@, "WITHDRAWAL"@);
    lemma_encode_utf8_injective("TRANSFER"@, "WITHDRAWAL"@);
    lemma_encode_utf8_injective("SUCCESS"@, "FAILURE"@);
    lemma_encode_utf8_injective("SUCCESS"@, "PENDING"@);
    lemma_encode_utf8_injective("FAILURE"@, "PENDING"@);
}

/// None of the field names, type texts or status texts holds a comma, a
/// newline, a colon or a hash, so none can collide with a format's
/// delimiters or with the comment marker.
#[verifier::rlimit(100)]
pub proof fn lemma_literal_bytes_clean()
    ensures
        byte_free("TX_ID".spec_bytes(), 0x2c),
        byte_free("TX_ID".spec_bytes(), 0x0a),
        byte_free("TX_ID".spec_bytes(), 0x3a),
        byte_free("TX_ID".spec_bytes(), 0x23),
        byte_free("TX_TYPE".spec_bytes(), 0x2c),
        byte_free("TX_TYPE".spec_bytes(), 0x0a),
        byte_free("TX_TYPE".spec_bytes(), 0x3a),
        byte_free("TX_TYPE".spec_bytes(), 0x23),
        byte_free("STATUS".spec_bytes(), 0x2c),
        byte_free("STATUS".spec_bytes(), 0x0a),
        byte_free("STATUS".spec_bytes(), 0x3a),
        byte_free("STATUS".spec_bytes(), 0x23),
        byte_free("FROM_USER_ID".spec_bytes(), 0x2c),
        byte_free("FROM_USER_ID".spec_bytes(), 0x0a),
        byte_free("FROM_USER_ID".spec_bytes(), 0x3a),
        byte_free("FROM_USER_ID".spec_bytes(), 0x23),
        byte_free("TO_USER_ID".spec_bytes(), 0x2c),
        byte_free("TO_USER_ID".spec_bytes(), 0x0a),
        byte_free("TO_USER_ID".spec_bytes(), 0x3a),
        byte_free("TO_USER_ID".spec_bytes(), 0x23),
        byte_free("TIMESTAMP".spec_bytes(), 0x2c),
        byte_free("TIMESTAMP".spec_bytes(), 0x0a),
        byte_free("TIMESTAMP".spec_bytes(), 0x3a),
        byte_free("TIMESTAMP".spec_bytes(), 0x23),
        byte_free("AMOUNT".spec_bytes(), 0x2c),
        byte_free("AMOUNT".spec_bytes(), 0x0a),
        byte_free("AMOUNT".spec_bytes(), 0x3a),
        byte_free("AMOUNT".spec_bytes(), 0x23),
        byte_free("DESCRIPTION".spec_bytes(), 0x2c),
        byte_free("DESCRIPTION".spec_bytes(), 0x0a),
        byte_free("DESCRIPTION".spec_bytes(), 0x3a),
        byte_free("DESCRIPTION".spec_bytes(), 0x23),
        byte_free("DEPOSIT".spec_bytes(), 0x2c),
        byte_free("DEPOSIT".spec_bytes(), 0x0a),
        byte_free("DEPOSIT".spec_bytes(), 0x3a),
        byte_free("DEPOSIT".spec_bytes(), 0x23),
        byte_free("TRANSFER".spec_bytes(), 0x2c),
        byte_free("TRANSFER".spec_bytes(), 0x0a),
        byte_free("TRANSFER".spec_bytes(), 0x3a),
        byte_free("TRANSFER".spec_bytes(), 0x23),
        byte_free("WITHDRAWAL".spec_bytes(), 0x2c),
        byte_free("WITHDRAWAL".spec_bytes(), 0x0a),
        byte_free("WITHDRAWAL".spec_bytes(), 0x3a),
        byte_free("WITHDRAWAL".spec_bytes(), 0x23),
        byte_free("SUCCESS".spec_bytes(), 0x2c),
        byte_free("SUCCESS".spec_bytes(), 0x0a),
        byte_free("SUCCESS".spec_bytes(), 0x3a),
        byte_free("SUCCESS".spec_bytes(), 0x23),
        byte_free("FAILURE".spec_bytes(), 0x2c),
        byte_free("FAILURE".spec_bytes(), 0x0a),
        byte_free("FAILURE".spec_bytes(), 0x3a),
        byte_free("FAILURE".spec_bytes(), 0x23),
        byte_free("PENDING".spec_bytes(), 0x2c),
        byte_free("PENDING".spec_bytes(), 0x0a),
        byte_free("PENDING".spec_bytes(), 0x3a),
        byte_free("PENDING".spec_bytes(), 0x23),
{
    broadcast use vstd::string::is_ascii_spec_bytes;

    reveal_strlit("TX_ID");
    assert(vstd::string::is_ascii("TX_ID"));
    assert forall|j: int| 0 <= j < "TX_ID".spec_bytes().len() implies "TX_ID".spec_bytes()[j] != 0x2c
        && "TX_ID".spec_bytes()[j] != 0x0a && "TX_ID".spec_bytes()[j] != 0x3a
        && "TX_ID".spec_bytes()[j] != 0x23 by {
        if j == 0 {
        } else if j == 1 {
        } else if j == 2 {
        } else if j == 3 {
        } else if j == 4 {
        }
    }
    reveal_strlit("TX_TYPE");
    assert(vstd::string::is_ascii("TX_TYPE"));
    assert forall|j: int| 0 <= j < "TX_TYPE".spec_bytes().len() implies "TX_TYPE".spec_bytes()[j] != 0x2c
        && "TX_TYPE".spec_bytes()[j] != 0x0a && "TX_TYPE".spec_bytes()[j] != 0x3a
        && "TX_TYPE".spec_bytes()[j] != 0x23 by {
        if j == 0 {
        } else if j == 1 {
        } else if j == 2 {
        } else if j == 3 {
        } else if j == 4 {
        } else if j == 5 {
        } else if j == 6 {
        }
    }
    reveal_strlit("STATUS");
    assert(vstd::string::is_ascii("STATUS"));
    assert forall|j: int| 0 <= j < "STATUS".spec_bytes().len() implies "STATUS".spec_bytes()[j] != 0x2c
        && "STATUS".spec_bytes()[j] != 0x0a && "STATUS".spec_bytes()[j] != 0x3a
        && "STATUS".spec_bytes()[j] != 0x23 by {
        if j == 0 {
        } else if j == 1 {
        } else if j == 2 {
        } else if j == 3 {
        } else if j == 4 {
        } else if j == 5 {
        }
    }
    reveal_strlit("FROM_USER_ID");
    assert(vstd::string::is_ascii("FROM_USER_ID"));
    assert forall|j: int| 0 <= j < "FROM_USER_ID".spec_bytes().len() implies "FROM_USER_ID".spec_bytes()[j] != 0x2c
        && "FROM_USER_ID".spec_bytes()[j] != 0x0a && "FROM_USER_ID".spec_bytes()[j] != 0x3a
        && "FROM_USER_ID".spec_bytes()[j] != 0x23 by {
        if j == 0 {
        } else if j == 1 {
        } else if j == 2 {
        } else if j == 3 {
        } else if j == 4 {
        } else if j == 5 {
        } else if j == 6 {
        } else if j == 7 {
        } else if j == 8 {
        } else if j == 9 {
        } else if j == 10 {
        } else if j == 11 {
        }
    }
    reveal_strlit("TO_USER_ID");
    assert(vstd::string::is_ascii("TO_USER_ID"));
    assert forall|j: int| 0 <= j < "TO_USER_ID".spec_bytes().len() implies "TO_USER_ID".spec_bytes()[j] != 0x2c
        && "TO_USER_ID".spec_bytes()[j] != 0x0a && "TO_USER_ID".spec_bytes()[j] != 0x3a
        && "TO_USER_ID".spec_bytes()[j] != 0x23 by {
        if j == 0 {
        } else if j == 1 {
        } else if j == 2 {
        } else if j == 3 {
        } else if j == 4 {
        } else if j == 5 {
        } else if j == 6 {
        } else if j == 7 {
        } else if j == 8 {
        } else if j == 9 {
        }
    }
    reveal_strlit("TIMESTAMP");
    assert(vstd::string::is_ascii("TIMESTAMP"));
    assert forall|j: int| 0 <= j < "TIMESTAMP".spec_bytes().len() implies "TIMESTAMP".spec_bytes()[j] != 0x2c
        && "TIMESTAMP".spec_bytes()[j] != 0x0a && "TIMESTAMP".spec_bytes()[j] != 0x3a
        && "TIMESTAMP".spec_bytes()[j] != 0x23 by {
        if j == 0 {
        } else if j == 1 {
        } else if j == 2 {
        } else if j == 3 {
        } else if j == 4 {
        } else if j == 5 {
        } else if j == 6 {
        } else if j == 7 {
        } else if j == 8 {
        }
    }
    reveal_strlit("AMOUNT");
    assert(vstd::string::is_ascii("AMOUNT"));
    assert forall|j: int| 0 <= j < "AMOUNT".spec_bytes().len() implies "AMOUNT".spec_bytes()[j] != 0x2c
        && "AMOUNT".spec_bytes()[j] != 0x0a && "AMOUNT".spec_bytes()[j] != 0x3a
        && "AMOUNT".spec_bytes()[j] != 0x23 by {
        if j == 0 {
        } else if j == 1 {
        } else if j == 2 {
        } else if j == 3 {
        } else if j == 4 {
        } else if j == 5 {
        }
    }
    reveal_strlit("DESCRIPTION");
    assert(vstd::string::is_ascii("DESCRIPTION"));
    assert forall|j: int| 0 <= j < "DESCRIPTION".spec_bytes().len() implies "DESCRIPTION".spec_bytes()[j] != 0x2c
        && "DESCRIPTION".spec_bytes()[j] != 0x0a && "DESCRIPTION".spec_bytes()[j] != 0x3a
        && "DESCRIPTION".spec_bytes()[j] != 0x23 by {
        if j == 0 {
        } else if j == 1 {
        } else if j == 2 {
        } else if j == 3 {
        } else if j == 4 {
        } else if j == 5 {
        } else if j == 6 {
        } else if j == 7 {
        } else if j == 8 {
        } else if j == 9 {
        } else if j == 10 {
        }
    }
    reveal_strlit("DEPOSIT");
    assert(vstd::string::is_ascii("DEPOSIT"));
    assert forall|j: int| 0 <= j < "DEPOSIT".spec_bytes().len() implies "DEPOSIT".spec_bytes()[j] != 0x2c
        && "DEPOSIT".spec_bytes()[j] != 0x0a && "DEPOSIT".spec_bytes()[j] != 0x3a
        && "DEPOSIT".spec_bytes()[j] != 0x23 by {
        if j == 0 {
        } else if j == 1 {
        } else if j == 2 {
        } else if j == 3 {
        } else if j == 4 {
        } else if j == 5 {
        } else if j == 6 {
        }
    }
    reveal_strlit("TRANSFER");
    assert(vstd::string::is_ascii("TRANSFER"));
    assert forall|j: int| 0 <= j < "TRANSFER".spec_bytes().len() implies "TRANSFER".spec_bytes()[j] != 0x2c
        && "TRANSFER".spec_bytes()[j] != 0x0a && "TRANSFER".spec_bytes()[j] != 0x3a
        && "TRANSFER".spec_bytes()[j] != 0x23 by {
        if j == 0 {
        } else if j == 1 {
        } else if j == 2 {
        } else if j == 3 {
        } else if j == 4 {
        } else if j == 5 {
        } else if j == 6 {
        } else if j == 7 {
        }
    }
    reveal_strlit("WITHDRAWAL");
    assert(vstd::string::is_ascii("WITHDRAWAL"));
    assert forall|j: int| 0 <= j < "WITHDRAWAL".spec_bytes().len() implies "WITHDRAWAL".spec_bytes()[j] != 0x2c
        && "WITHDRAWAL".spec_bytes()[j] != 0x0a && "WITHDRAWAL".spec_bytes()[j] != 0x3a
        && "WITHDRAWAL".spec_bytes()[j] != 0x23 by {
        if j == 0 {
        } else if j == 1 {
        } else if j == 2 {
        } else if j == 3 {
        } else if j == 4 {
        } else if j == 5 {
        } else if j == 6 {
        } else if j == 7 {
        } else if j == 8 {
        } else if j == 9 {
        }
    }
    reveal_strlit("SUCCESS");
    assert(vstd::string::is_ascii("SUCCESS"));
    assert forall|j: int| 0 <= j < "SUCCESS".spec_bytes().len() implies "SUCCESS".spec_bytes()[j] != 0x2c
        && "SUCCESS".spec_bytes()[j] != 0x0a && "SUCCESS".spec_bytes()[j] != 0x3a
        && "SUCCESS".spec_bytes()[j] != 0x23 by {
        if j == 0 {
        } else if j == 1 {
        } else if j == 2 {
        } else if j == 3 {
        } else if j == 4 {
        } else if j == 5 {
        } else if j == 6 {
        }
    }
    reveal_strlit("FAILURE");
    assert(vstd::string::is_ascii("FAILURE"));
    assert forall|j: int| 0 <= j < "FAILURE".spec_bytes().len() implies "FAILURE".spec_bytes()[j] != 0x2c
        && "FAILURE".spec_bytes()[j] != 0x0a && "FAILURE".spec_bytes()[j] != 0x3a
        && "FAILURE".spec_bytes()[j] != 0x23 by {
        if j == 0 {
        } else if j == 1 {
        } else if j == 2 {
        } else if j == 3 {
        } else if j == 4 {
        } else if j == 5 {
        } else if j == 6 {
        }
    }
    reveal_strlit("PENDING");
    assert(vstd::string::is_ascii("PENDING"));
    assert forall|j: int| 0 <= j < "PENDING".spec_bytes().len() implies "PENDING".spec_bytes()[j] != 0x2c
        && "PENDING".spec_bytes()[j] != 0x0a && "PENDING".spec_bytes()[j] != 0x3a
        && "PENDING".spec_bytes()[j] != 0x23 by {
        if j == 0 {
        } else if j == 1 {
        } else if j == 2 {
        } else if j == 3 {
        } else if j == 4 {
        } else if j == 5 {
        } else if j == 6 {
        }
    }
}

} // verus!
