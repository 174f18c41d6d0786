//! JSON text for the values that the service sends to its clients.

use vstd::prelude::*;
use vstd::string::*;

verus! {

/// A value that has a JSON form.
pub trait ToJson {
    /// The JSON text of this value.
    spec fn json_spec(&self) -> Seq<char>;

    fn to_json(&self) -> (r: String)
        ensures
            r@ == self.json_spec(),
    ;
}

/// The texts `items`, each but the first preceded by a comma.
pub open spec fn comma_separated(items: Seq<Seq<char>>) -> Seq<char>
    decreases items.len(),
{
    if items.len() == 0 {
        Seq::empty()
    } else if items.len() == 1 {
        items[0]
    } else {
        comma_separated(items.drop_last()) + ","@ + items.last()
    }
}

/// The JSON array whose elements are the JSON texts `items`, in order.
pub open spec fn json_array(items: Seq<Seq<char>>) -> Seq<char> {
    "["@ + comma_separated(items) + "]"@
}

/// The JSON texts of the values in `items`, in order.
pub open spec fn json_texts<T: ToJson>(items: Seq<T>) -> Seq<Seq<char>> {
    Seq::new(items.len(), |i: int| items[i].json_spec())
}

impl<T: ToJson> ToJson for Vec<T> {
    open spec fn json_spec(&self) -> Seq<char> {
        json_array(json_texts(self@))
    }

    fn to_json(&self) -> (r: String) {
        let mut text = String::from_str("[");
        let mut i: usize = 0;
        while i < self.len()
            invariant
                i <= self.len(),
                text@ == "["@ + comma_separated(json_texts(self@.take(i as int))),
            decreases self.len() - i,
        {
            if i > 0 {
                text.append(",");
            }
            let item = self[i].to_json();
            text.append(item.as_str());
            proof {
                let before = json_texts(self@.take(i as int));
                let after = json_texts(self@.take(i + 1));
                assert(after.drop_last() =~= before);
                assert(after.last() == item@);
                if i == 0 {
                    assert(after.len() == 1);
                    assert(comma_separated(before) =~= Seq::<char>::empty());
                }
                assert(text@ =~= "["@ + comma_separated(after));
            }
            i += 1;
        }
        proof {
            assert(self@.take(i as int) =~= self@);
        }
        text.append("]");
        text
    }
}

} // verus!
