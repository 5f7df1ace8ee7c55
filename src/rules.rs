use vstd::prelude::*;

verus! {

/// One tagging rule: reacting with `emoji_name` cites the message in
/// `channel_target` and deletes it after `message_counter` further messages.
pub struct TagRule {
    pub emoji_name: String,
    pub channel_target: u64,
    pub message_counter: u16,
}

/// The rules loaded at startup, read-only afterwards.
pub struct TagTable {
    pub rules: Vec<TagRule>,
}

/// Index of the first rule whose emoji is `name`, if any.
pub open spec fn first_match(rules: Seq<TagRule>, name: Seq<char>) -> Option<int> {
    if exists|i: int| 0 <= i < rules.len() && #[trigger] rules[i].emoji_name@ == name {
        Some(
            choose|i: int|
                0 <= i < rules.len() && rules[i].emoji_name@ == name && forall|j: int|
                    0 <= j < i ==> #[trigger] rules[j].emoji_name@ != name,
        )
    } else {
        None
    }
}

impl TagTable {
    /// The first rule for the emoji `name`; `None` when no rule names it.
    pub fn lookup(&self, name: &String) -> (r: Option<&TagRule>)
        ensures
            r is None <==> first_match(self.rules@, name@) is None,
            r matches Some(rule) ==> *rule == self.rules@[first_match(self.rules@, name@)->0],
    {
        let mut i: usize = 0;
        while i < self.rules.len()
            invariant
                i <= self.rules.len(),
                forall|j: int| 0 <= j < i ==> #[trigger] self.rules@[j].emoji_name@ != name@,
            decreases self.rules.len() - i,
        {
            if self.rules[i].emoji_name == *name {
                proof {
                    let k = choose|k: int|
                        0 <= k < self.rules@.len() && self.rules@[k].emoji_name@ == name@
                            && forall|j: int|
                            0 <= j < k ==> #[trigger] self.rules@[j].emoji_name@ != name@;
                    assert(k == i) by {
                        if k < i {
                        } else if k > i {
                            assert(self.rules@[i as int].emoji_name@ == name@);
                        }
                    }
                }
                return Some(&self.rules[i]);
            }
            i = i + 1;
        }
        None
    }
}

} // verus!
