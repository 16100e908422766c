//! The subscriber query: which recipients of a category a scan of the
//! subscriber store yields, and when a scanned record counts as
//! malformed.

use crate::errors::PipelineError;
use vstd::prelude::*;

verus! {

/// One record as the store hands it back: an attribute map that may lack
/// any of the three expected attributes.
pub struct StoreItem {
    pub subscription_id: Option<String>,
    pub category: Option<String>,
    pub email: Option<String>,
}

/// Whether a scanned record belongs to the given category.
pub open spec fn item_matches(item: StoreItem, category: Seq<char>) -> bool {
    match item.category {
        Some(c) => c@ == category,
        None => false,
    }
}

/// The recipient addresses of the records of a category, in store order;
/// `None` when some record of the category lacks the email attribute.
pub open spec fn subscriber_emails(items: Seq<StoreItem>, category: Seq<char>) -> Option<
    Seq<Seq<char>>,
>
    decreases items.len(),
{
    if items.len() == 0 {
        Some(Seq::empty())
    } else {
        let rest = subscriber_emails(items.drop_first(), category);
        if !item_matches(items[0], category) {
            rest
        } else {
            match items[0].email {
                Some(e) => match rest {
                    Some(t) => Some(seq![e@] + t),
                    None => None,
                },
                None => None,
            }
        }
    }
}

/// The detail wording of the one malformed-record error the query can
/// raise.
pub open spec fn missing_email_detail() -> Seq<char> {
    "matched subscriber record without an email"@
}

/// Filters the scanned records down to the recipients of the given
/// category, in store order. Returns the empty vector, not an error, when
/// no record matches; fails with `StoreError` exactly when a record of
/// the category lacks the email attribute.
pub fn find_subscribers(category: &String, items: &Vec<StoreItem>) -> (r: Result<
    Vec<String>,
    PipelineError,
>)
    ensures
        r is Ok <==> subscriber_emails(items@, category@) is Some,
        r is Ok ==> r->Ok_0.deep_view() == subscriber_emails(items@, category@)->0,
        r is Err ==> (r->Err_0 matches PipelineError::StoreError { detail } && detail@
            == missing_email_detail()),
{
    let n = items.len();
    let mut out: Vec<String> = Vec::new();
    let mut i: usize = 0;
    proof {
        assert(items@.skip(0) =~= items@);
        assert(forall|t: Seq<Seq<char>>| #![auto] Seq::<Seq<char>>::empty() + t =~= t);
        assert(out.deep_view() =~= Seq::<Seq<char>>::empty());
    }
    while i < n
        invariant
            i <= n,
            n == items@.len(),
                        forall|t: Seq<Seq<char>>|
                subscriber_emails(items@.skip(i as int), category@) == Some(t)
                    ==> subscriber_emails(items@, category@) == Some(out.deep_view() + t),
            subscriber_emails(items@.skip(i as int), category@) is None
                ==> subscriber_emails(items@, category@) is None,
        decreases n - i,
    {
        let ghost prev = out.deep_view();
        let ghost rest = items@.skip(i as int);
        proof {
            assert(rest[0] == items@[i as int]);
            assert(rest.drop_first() =~= items@.skip(i + 1));
        }
        let matched: bool = match &items[i].category {
            Some(c) => string_eq(c, category),
            None => false,
        };
        if matched {
            match &items[i].email {
                Some(e) => {
                    out.push(clone_string(e));
                    proof {
                        assert(out.deep_view() =~= prev + seq![e@]);
                        assert(forall|t: Seq<Seq<char>>|
                            prev + (seq![e@] + t) =~= (prev + seq![e@]) + t);
                    }
                },
                None => {
                    proof {
                        assert(subscriber_emails(rest, category@) is None);
                    }
                    return Err(
                        PipelineError::StoreError {
                            detail: string_of("matched subscriber record without an email"),
                        },
                    );
                },
            }
        }
        i = i + 1;
    }
    proof {
        assert(items@.skip(n as int) =~= Seq::<StoreItem>::empty());
        assert(subscriber_emails(Seq::empty(), category@) == Some(Seq::<Seq<char>>::empty()));
        assert(out.deep_view() + Seq::<Seq<char>>::empty() =~= out.deep_view());
    }
    Ok(out)
}

/// One subscriber record with all three attributes present, as the
/// surrounding read handlers answer it.
pub struct SubscriberRecord {
    pub subscription_id: String,
    pub category: String,
    pub email: String,
}

/// Reads a whole record out of a scanned item: `None` exactly when one
/// of the three expected attributes is absent.
pub fn complete_record(item: StoreItem) -> (r: Option<SubscriberRecord>)
    ensures
        r is Some <==> (item.subscription_id is Some && item.category is Some && item.email
            is Some),
        r is Some ==> {
            &&& r->0.subscription_id == item.subscription_id->0
            &&& r->0.category == item.category->0
            &&& r->0.email == item.email->0
        },
{
    match (item.subscription_id, item.category, item.email) {
        (Some(subscription_id), Some(category), Some(email)) => Some(
            SubscriberRecord { subscription_id, category, email },
        ),
        _ => None,
    }
}

/// String equality by characters.
fn string_eq(a: &String, b: &String) -> (r: bool)
    ensures
        r == (a@ == b@),
{
    a.eq(b)
}

/// An owned copy of a string slice.
fn string_of(s: &str) -> (r: String)
    ensures
        r@ == s@,
{
    s.to_owned()
}

/// An owned copy of a string.
fn clone_string(s: &String) -> (r: String)
    ensures
        r@ == s@,
{
    s.clone()
}

} // verus!
