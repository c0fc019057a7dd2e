//! The rules that submitted credentials, orders and products must meet.
//! Each check answers the first rule broken, in the order given, as a
//! 400 error with a fixed message. Lengths are in bytes of UTF-8.

use vstd::prelude::*;

use crate::error::{AppError, ErrorKind};
use crate::shared::{AdminCredentials, OrderInput, OrderItem, ProductInput};
use crate::text::{byte_len, is_blank, starts_with, str_byte_len, string_byte_len, trim, trim_str};

verus! {

/// Whether the text is empty once trimmed.
pub open spec fn blank(cs: Seq<char>) -> bool {
    trim(cs).len() == 0
}

/// The message for the first rule that credentials break, if any: a user
/// name of 3 to 64 bytes (at least 3 once trimmed) and a password of 8 to 200
/// bytes.
pub open spec fn credentials_error(c: AdminCredentials) -> Option<Seq<char>> {
    if byte_len(trim(c.username@)) < 3 || byte_len(c.username@) > 64 {
        Some("username must be 3-64 characters"@)
    } else if byte_len(c.password@) < 8 || byte_len(c.password@) > 200 {
        Some("password must be at least 8 characters"@)
    } else {
        None
    }
}

/// Whether every line orders between 1 and 1000 pieces.
pub open spec fn quantities_valid(items: Seq<OrderItem>) -> bool {
    forall|i: int| 0 <= i < items.len() ==> 1 <= (#[trigger] items[i]).quantity <= 1000
}

/// The message for the first rule that an order breaks, if any.
pub open spec fn order_input_error(o: OrderInput) -> Option<Seq<char>> {
    if blank(o.customer_name@) || byte_len(o.customer_name@) > 200 {
        Some("invalid customer_name"@)
    } else if blank(o.phone@) || byte_len(o.phone@) > 30 {
        Some("invalid phone"@)
    } else if blank(o.address@) || byte_len(o.address@) > 500 {
        Some("invalid address"@)
    } else if byte_len(o.note@) > 1000 {
        Some("note too long"@)
    } else if o.items@.len() == 0 || o.items@.len() > 100 {
        Some("invalid items"@)
    } else if !quantities_valid(o.items@) {
        Some("invalid quantity"@)
    } else {
        None
    }
}

/// The message for the first rule that a product breaks, if any.
pub open spec fn product_input_error(p: ProductInput) -> Option<Seq<char>> {
    if blank(p.name@) || byte_len(p.name@) > 200 {
        Some("invalid name"@)
    } else if byte_len(p.description@) > 5000 {
        Some("description too long"@)
    } else if p.price < 0 || p.price > 1_000_000_000 {
        Some("invalid price"@)
    } else if p.stock < 0 || p.stock > 1_000_000 {
        Some("invalid stock"@)
    } else if byte_len(p.image_url@) > 2000 || !("http://"@.is_prefix_of(p.image_url@)
        || "https://"@.is_prefix_of(p.image_url@)) {
        Some("invalid image url"@)
    } else {
        None
    }
}

/// The outcome that a rule check owes: `Ok` when no rule is broken, else a
/// 400 error with the message of the first broken rule.
pub open spec fn validation_outcome(r: Result<(), AppError>, error: Option<Seq<char>>) -> bool {
    match r {
        Ok(()) => error is None,
        Err(e) => e.kind == ErrorKind::BadRequest && error == Some(e.message@),
    }
}

/// Checks the credentials submitted at setup.
pub fn validate_credentials(input: &AdminCredentials) -> (r: Result<(), AppError>)
    ensures
        validation_outcome(r, credentials_error(*input)),
{
    if str_byte_len(trim_str(input.username.as_str())) < 3 || string_byte_len(&input.username)
        > 64 {
        return Err(AppError::bad_request("username must be 3-64 characters"));
    }
    if string_byte_len(&input.password) < 8 || string_byte_len(&input.password) > 200 {
        return Err(AppError::bad_request("password must be at least 8 characters"));
    }
    Ok(())
}

/// Checks an order submitted at checkout.
#[verifier::loop_isolation(false)]
pub fn validate_order_input(input: &OrderInput) -> (r: Result<(), AppError>)
    ensures
        validation_outcome(r, order_input_error(*input)),
{
    if is_blank(input.customer_name.as_str()) || string_byte_len(&input.customer_name) > 200 {
        return Err(AppError::bad_request("invalid customer_name"));
    }
    if is_blank(input.phone.as_str()) || string_byte_len(&input.phone) > 30 {
        return Err(AppError::bad_request("invalid phone"));
    }
    if is_blank(input.address.as_str()) || string_byte_len(&input.address) > 500 {
        return Err(AppError::bad_request("invalid address"));
    }
    if string_byte_len(&input.note) > 1000 {
        return Err(AppError::bad_request("note too long"));
    }
    if input.items.len() == 0 || input.items.len() > 100 {
        return Err(AppError::bad_request("invalid items"));
    }
    let mut i: usize = 0;
    while i < input.items.len()
        invariant
            i <= input.items@.len(),
            forall|j: int| 0 <= j < i ==> 1 <= (#[trigger] input.items@[j]).quantity <= 1000,
        decreases input.items.len() - i,
    {
        let q = input.items[i].quantity;
        if q <= 0 || q > 1000 {
            assert(!(1 <= input.items@[i as int].quantity <= 1000));
            return Err(AppError::bad_request("invalid quantity"));
        }
        i = i + 1;
    }
    Ok(())
}

/// Checks a product submitted by an administrator.
pub fn validate_product_input(input: &ProductInput) -> (r: Result<(), AppError>)
    ensures
        validation_outcome(r, product_input_error(*input)),
{
    if is_blank(input.name.as_str()) || string_byte_len(&input.name) > 200 {
        return Err(AppError::bad_request("invalid name"));
    }
    if string_byte_len(&input.description) > 5000 {
        return Err(AppError::bad_request("description too long"));
    }
    if input.price < 0 || input.price > 1_000_000_000 {
        return Err(AppError::bad_request("invalid price"));
    }
    if input.stock < 0 || input.stock > 1_000_000 {
        return Err(AppError::bad_request("invalid stock"));
    }
    if string_byte_len(&input.image_url) > 2000 || !(starts_with(
        input.image_url.as_str(),
        "http://",
    ) || starts_with(input.image_url.as_str(), "https://")) {
        return Err(AppError::bad_request("invalid image url"));
    }
    Ok(())
}

/// An order is accepted exactly when every field meets its documented limit:
/// a non-blank customer name of at most 200 bytes, a non-blank phone of at
/// most 30, a non-blank address of at most 500, a note of at most 1000, and
/// 1 to 100 lines each ordering 1 to 1000 pieces. In particular an address is
/// refused only when it is blank or longer than 500 bytes.
pub proof fn law_order_limits(o: OrderInput)
    ensures
        (order_input_error(o) is None) <==> {
            &&& !blank(o.customer_name@) && byte_len(o.customer_name@) <= 200
            &&& !blank(o.phone@) && byte_len(o.phone@) <= 30
            &&& !blank(o.address@) && byte_len(o.address@) <= 500
            &&& byte_len(o.note@) <= 1000
            &&& 1 <= o.items@.len() <= 100
            &&& forall|i: int| 0 <= i < o.items@.len() ==> 1 <= #[trigger] o.items@[i].quantity <= 1000
        },
        order_input_error(o) == Some("invalid address"@) ==> blank(o.address@) || byte_len(o.address@)
            > 500,
{
    reveal_strlit("invalid address");
    reveal_strlit("invalid customer_name");
    reveal_strlit("invalid phone");
    reveal_strlit("note too long");
    reveal_strlit("invalid items");
    reveal_strlit("invalid quantity");
    assert("invalid address"@.len() == 15);
    assert("invalid customer_name"@.len() == 21);
    assert("invalid phone"@.len() == 13);
}

/// A product is accepted exactly when every field meets its documented
/// limit: a non-blank name of at most 200 bytes, a description of at most
/// 5000, a price from 0 to 1 000 000 000, a stock from 0 to 1 000 000 (a
/// sold-out product included), and an image address of at most 2000 bytes
/// starting `http://` or `https://`. The stock rule fires exactly when the
/// stock is negative or above 1 000 000.
pub proof fn law_product_limits(p: ProductInput)
    ensures
        (product_input_error(p) is None) <==> {
            &&& !blank(p.name@) && byte_len(p.name@) <= 200
            &&& byte_len(p.description@) <= 5000
            &&& 0 <= p.price <= 1_000_000_000
            &&& 0 <= p.stock <= 1_000_000
            &&& byte_len(p.image_url@) <= 2000
            &&& ("http://"@.is_prefix_of(p.image_url@) || "https://"@.is_prefix_of(p.image_url@))
        },
        product_input_error(p) == Some("invalid stock"@) ==> p.stock < 0 || p.stock > 1_000_000,
        (0 <= p.stock <= 1_000_000) ==> product_input_error(p) != Some("invalid stock"@),
{
    reveal_strlit("invalid stock");
    reveal_strlit("invalid name");
    reveal_strlit("description too long");
    reveal_strlit("invalid price");
    reveal_strlit("invalid image url");
    assert("invalid stock"@.len() == 13);
    assert("invalid name"@.len() == 12);
    assert("description too long"@.len() == 20);
    assert("invalid price"@[8] == 'p');
    assert("invalid stock"@[8] == 's');
}

/// Credentials are accepted exactly when the user name has 3 to 64 bytes (at
/// least 3 once trimmed) and the password 8 to 200 bytes.
pub proof fn law_credential_limits(c: AdminCredentials)
    ensures
        (credentials_error(c) is None) <==> (byte_len(trim(c.username@)) >= 3 && byte_len(
            c.username@,
        ) <= 64 && 8 <= byte_len(c.password@) <= 200),
{
}

} // verus!
