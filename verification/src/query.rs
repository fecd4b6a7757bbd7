use vstd::prelude::*;
use vstd::string::*;
use crate::cmd_args::Filter;

verus! {

/// One clause per value: `tag`, the value, a trailing space, repeated.
pub open spec fn spec_tagged_list(tag: Seq<char>, vs: Seq<String>) -> Seq<char>
    decreases vs.len(),
{
    if vs.len() == 0 {
        Seq::<char>::empty()
    } else {
        tag + vs.first()@ + " "@ + spec_tagged_list(tag, vs.drop_first())
    }
}

/// The clauses of an optional list field; an absent field contributes nothing.
pub open spec fn spec_tagged_opt(tag: Seq<char>, vs: Option<Vec<String>>) -> Seq<char> {
    match vs {
        None => Seq::<char>::empty(),
        Some(v) => spec_tagged_list(tag, v@),
    }
}

/// The clause of an optional single-valued field.
pub open spec fn spec_tagged_single(tag: Seq<char>, v: Option<String>) -> Seq<char> {
    match v {
        None => Seq::<char>::empty(),
        Some(s) => tag + s@ + " "@,
    }
}

/// The character of a single decimal digit.
pub open spec fn spec_digit(d: nat) -> char {
    if d == 0 {
        '0'
    } else if d == 1 {
        '1'
    } else if d == 2 {
        '2'
    } else if d == 3 {
        '3'
    } else if d == 4 {
        '4'
    } else if d == 5 {
        '5'
    } else if d == 6 {
        '6'
    } else if d == 7 {
        '7'
    } else if d == 8 {
        '8'
    } else {
        '9'
    }
}

/// The decimal notation of a number, most significant digit first, without
/// leading zeros (a single zero for zero itself).
pub open spec fn spec_decimal(n: nat) -> Seq<char>
    decreases n,
{
    if n < 10 {
        seq![spec_digit(n)]
    } else {
        spec_decimal(n / 10) + seq![spec_digit(n % 10)]
    }
}

/// The clause of an optional numeric field, in decimal.
pub open spec fn spec_tagged_num(tag: Seq<char>, v: Option<usize>) -> Seq<char> {
    match v {
        None => Seq::<char>::empty(),
        Some(n) => tag + spec_decimal(n as nat) + " "@,
    }
}

/// Whether no search field of the filter is present. The two file fields do
/// not count: they name where a query comes from, not a clause of one.
pub open spec fn spec_filter_is_empty(f: Filter) -> bool {
    &&& f.words is None
    &&& f.from is None
    &&& f.to is None
    &&& f.cc is None
    &&& f.bcc is None
    &&& f.subject is None
    &&& f.remove_words is None
    &&& f.labels is None
    &&& f.has is None
    &&& f.list is None
    &&& f.filename is None
    &&& f.in_folders is None
    &&& f.is_states is None
    &&& f.after is None
    &&& f.before is None
    &&& f.older_than is None
    &&& f.newer_than is None
    &&& f.deliveredto is None
    &&& f.category is None
    &&& f.size is None
    &&& f.larger is None
    &&& f.smaller is None
    &&& f.rfc822msgid is None
}

/// The full query string of a filter: the clauses of every present field,
/// in a fixed order, each value tagged with its search operator and
/// followed by a space.
pub open spec fn spec_query(f: Filter) -> Seq<char> {
    spec_tagged_opt(Seq::<char>::empty(), f.words) + spec_tagged_opt("from:"@, f.from)
        + spec_tagged_opt("to:"@, f.to) + spec_tagged_opt("cc:"@, f.cc) + spec_tagged_opt(
        "bcc:"@,
        f.bcc,
    ) + spec_tagged_opt("subject:"@, f.subject) + spec_tagged_opt("-"@, f.remove_words)
        + spec_tagged_opt("label:"@, f.labels) + spec_tagged_opt("has:"@, f.has) + spec_tagged_opt(
        "list:"@,
        f.list,
    ) + spec_tagged_opt("filename:"@, f.filename) + spec_tagged_opt("in:"@, f.in_folders)
        + spec_tagged_opt("is:"@, f.is_states) + spec_tagged_single("after:"@, f.after)
        + spec_tagged_single("before:"@, f.before) + spec_tagged_single(
        "older_than:"@,
        f.older_than,
    ) + spec_tagged_single("newer_than:"@, f.newer_than) + spec_tagged_opt(
        "deliveredto:"@,
        f.deliveredto,
    ) + spec_tagged_opt("category:"@, f.category) + spec_tagged_opt("rfc822msgid:"@, f.rfc822msgid)
        + spec_tagged_num("size:"@, f.size) + spec_tagged_num("larger:"@, f.larger)
        + spec_tagged_num("smaller:"@, f.smaller)
}

/// Unfolds one clause off the front of the remaining values.
proof fn lemma_tagged_step(tag: Seq<char>, vs: Seq<String>, i: int)
    requires
        0 <= i < vs.len(),
    ensures
        spec_tagged_list(tag, vs.skip(i)) == tag + vs[i]@ + " "@ + spec_tagged_list(
            tag,
            vs.skip(i + 1),
        ),
{
    assert(vs.skip(i).len() > 0);
    assert(vs.skip(i).first() == vs[i]);
    assert(vs.skip(i).drop_first() =~= vs.skip(i + 1));
}

/// Appends the clauses of an optional list field.
fn push_tagged_list(out: &mut String, tag: &str, vs: &Option<Vec<String>>)
    ensures
        final(out)@ == old(out)@ + spec_tagged_opt(tag@, *vs),
{
    match vs {
        None => {
            proof {
                assert(old(out)@ + Seq::<char>::empty() =~= old(out)@);
            }
        },
        Some(list) => {
            let n = list.len();
            let mut i: usize = 0;
            proof {
                assert(list@.skip(0) =~= list@);
            }
            while i < n
                invariant
                    i <= n,
                    n == list@.len(),
                    out@ + spec_tagged_list(tag@, list@.skip(i as int)) == old(out)@
                        + spec_tagged_list(tag@, list@),
                decreases n - i,
            {
                let ghost before = out@;
                out.append(tag);
                out.append(list[i].as_str());
                out.append(" ");
                proof {
                    lemma_tagged_step(tag@, list@, i as int);
                    assert(out@ + spec_tagged_list(tag@, list@.skip(i as int + 1)) =~= before
                        + spec_tagged_list(tag@, list@.skip(i as int)));
                }
                i = i + 1;
            }
            proof {
                assert(list@.skip(n as int) =~= Seq::<String>::empty());
                assert(out@ + Seq::<char>::empty() =~= out@);
            }
        },
    }
}

/// Appends the clause of an optional single-valued field.
fn push_tagged_single(out: &mut String, tag: &str, v: &Option<String>)
    ensures
        final(out)@ == old(out)@ + spec_tagged_single(tag@, *v),
{
    match v {
        None => {
            proof {
                assert(old(out)@ + Seq::<char>::empty() =~= old(out)@);
            }
        },
        Some(s) => {
            out.append(tag);
            out.append(s.as_str());
            out.append(" ");
        },
    }
}

/// The character of one decimal digit.
fn digit_str(d: usize) -> (s: &'static str)
    requires
        d < 10,
    ensures
        s@ == seq![spec_digit(d as nat)],
{
    proof {
        reveal_strlit("0");
        reveal_strlit("1");
        reveal_strlit("2");
        reveal_strlit("3");
        reveal_strlit("4");
        reveal_strlit("5");
        reveal_strlit("6");
        reveal_strlit("7");
        reveal_strlit("8");
        reveal_strlit("9");
    }
    let s = if d == 0 {
        "0"
    } else if d == 1 {
        "1"
    } else if d == 2 {
        "2"
    } else if d == 3 {
        "3"
    } else if d == 4 {
        "4"
    } else if d == 5 {
        "5"
    } else if d == 6 {
        "6"
    } else if d == 7 {
        "7"
    } else if d == 8 {
        "8"
    } else {
        "9"
    };
    proof {
        assert(s@ =~= seq![spec_digit(d as nat)]);
    }
    s
}

/// Writes a number in decimal.
pub fn decimal_string(n: usize) -> (s: String)
    ensures
        s@ == spec_decimal(n as nat),
    decreases n,
{
    if n < 10 {
        let s = digit_str(n);
        s.to_owned()
    } else {
        let mut s = decimal_string(n / 10);
        s.append(digit_str(n % 10));
        s
    }
}

/// Appends the clause of an optional numeric field.
fn push_tagged_num(out: &mut String, tag: &str, v: &Option<usize>)
    ensures
        final(out)@ == old(out)@ + spec_tagged_num(tag@, *v),
{
    match v {
        None => {
            proof {
                assert(old(out)@ + Seq::<char>::empty() =~= old(out)@);
            }
        },
        Some(n) => {
            out.append(tag);
            let digits = decimal_string(*n);
            out.append(digits.as_str());
            out.append(" ");
        },
    }
}

/// Whether no search field of the filter is present.
pub fn filter_is_empty(f: &Filter) -> (b: bool)
    ensures
        b == spec_filter_is_empty(*f),
{
    f.words.is_none() && f.from.is_none() && f.to.is_none() && f.cc.is_none() && f.bcc.is_none()
        && f.subject.is_none() && f.remove_words.is_none() && f.labels.is_none() && f.has.is_none()
        && f.list.is_none() && f.filename.is_none() && f.in_folders.is_none()
        && f.is_states.is_none() && f.after.is_none() && f.before.is_none()
        && f.older_than.is_none() && f.newer_than.is_none() && f.deliveredto.is_none()
        && f.category.is_none() && f.size.is_none() && f.larger.is_none() && f.smaller.is_none()
        && f.rfc822msgid.is_none()
}

/// Builds the query string of a filter: every present field contributes one
/// tagged clause per value, in the fixed order `spec_query` gives.
pub fn query_parse(filter: &Filter) -> (q: String)
    ensures
        q@ == spec_query(*filter),
{
    let mut result = String::new();
    proof {
        reveal_strlit("");
        assert(""@ =~= Seq::<char>::empty());
    }
    push_tagged_list(&mut result, "", &filter.words);
    push_tagged_list(&mut result, "from:", &filter.from);
    push_tagged_list(&mut result, "to:", &filter.to);
    push_tagged_list(&mut result, "cc:", &filter.cc);
    push_tagged_list(&mut result, "bcc:", &filter.bcc);
    push_tagged_list(&mut result, "subject:", &filter.subject);
    push_tagged_list(&mut result, "-", &filter.remove_words);
    push_tagged_list(&mut result, "label:", &filter.labels);
    push_tagged_list(&mut result, "has:", &filter.has);
    push_tagged_list(&mut result, "list:", &filter.list);
    push_tagged_list(&mut result, "filename:", &filter.filename);
    push_tagged_list(&mut result, "in:", &filter.in_folders);
    push_tagged_list(&mut result, "is:", &filter.is_states);
    push_tagged_single(&mut result, "after:", &filter.after);
    push_tagged_single(&mut result, "before:", &filter.before);
    push_tagged_single(&mut result, "older_than:", &filter.older_than);
    push_tagged_single(&mut result, "newer_than:", &filter.newer_than);
    push_tagged_list(&mut result, "deliveredto:", &filter.deliveredto);
    push_tagged_list(&mut result, "category:", &filter.category);
    push_tagged_list(&mut result, "rfc822msgid:", &filter.rfc822msgid);
    push_tagged_num(&mut result, "size:", &filter.size);
    push_tagged_num(&mut result, "larger:", &filter.larger);
    push_tagged_num(&mut result, "smaller:", &filter.smaller);
    result
}

/// How a message-list request is parameterized: the query string to search
/// with, if any, and the page size to ask for.
pub struct ListPlan {
    pub query: Option<String>,
    pub max_results: u32,
}

/// Decides the listing request for a filter, as the tool sends it: an empty
/// filter asks for nothing, any other filter searches with its query string
/// and a page size of 500.
pub fn plan_query(filter: &Filter) -> (p: ListPlan)
    ensures
        spec_filter_is_empty(*filter) ==> p.query is None && p.max_results == 0,
        !spec_filter_is_empty(*filter) ==> (p.query matches Some(q) && q@ == spec_query(*filter)
            && p.max_results == 500),
{
    if filter_is_empty(filter) {
        ListPlan { query: None, max_results: 0 }
    } else {
        ListPlan { query: Some(query_parse(filter)), max_results: 500 }
    }
}

} // verus!
