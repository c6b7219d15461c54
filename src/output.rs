//! Names of the files that persisted responses are written to.

use vstd::prelude::*;
use crate::text::{
    decimal, zero_padded, push_char, push_zero_padded, decimal_len, lemma_decimal_len_monotonic,
    lemma_zero_padded_len, lemma_zero_padded_value,
};

verus! {

/// `"success"` or `"failure"`, by outcome.
pub open spec fn outcome_word(success: bool) -> Seq<char> {
    if success {
        "success"@
    } else {
        "failure"@
    }
}

/// `-label` when a source label is present, nothing otherwise.
pub open spec fn label_suffix(label: Option<Seq<char>>) -> Seq<char> {
    match label {
        Some(l) => seq!['-'] + l,
        None => Seq::empty(),
    }
}

/// `{success|failure}-{iteration, zero-padded to the digit count of
/// num_requests}[-{label}].json`
pub open spec fn output_file_name(
    num_requests: nat,
    iteration: nat,
    label: Option<Seq<char>>,
    success: bool,
) -> Seq<char> {
    outcome_word(success) + seq!['-'] + zero_padded(iteration, decimal(num_requests).len())
        + label_suffix(label) + ".json"@
}

/// `name` placed inside directory `dir`, with one `/` between them.
pub open spec fn join_path(dir: Seq<char>, name: Seq<char>) -> Seq<char> {
    if dir.len() == 0 {
        name
    } else if dir.last() == '/' {
        dir + name
    } else {
        dir + seq!['/'] + name
    }
}

/// The view of an optional string.
pub open spec fn opt_view(o: Option<String>) -> Option<Seq<char>> {
    match o {
        Some(s) => Some(s@),
        None => None,
    }
}

/// The file that the response of request number `iteration` (1-based) is
/// written to, inside `output_dir`.
pub fn get_output_file(
    num_requests: u32,
    output_dir: &str,
    iteration: u64,
    base_file_name: &Option<String>,
    success: bool,
) -> (r: String)
    ensures
        r@ == join_path(
            output_dir@,
            output_file_name(num_requests as nat, iteration as nat, opt_view(*base_file_name), success),
        ),
{
    let mut s = String::from_str(output_dir);
    let n = output_dir.unicode_len();
    if n > 0 && output_dir.get_char(n - 1) != '/' {
        push_char(&mut s, '/');
    }
    let ghost dir_part = s@;
    if success {
        s.append("success");
    } else {
        s.append("failure");
    }
    push_char(&mut s, '-');
    let width = decimal_len(num_requests as u64);
    push_zero_padded(&mut s, iteration, width);
    match base_file_name {
        Some(label) => {
            push_char(&mut s, '-');
            s.append(label.as_str());
        },
        None => {},
    }
    s.append(".json");
    proof {
        let name = output_file_name(
            num_requests as nat,
            iteration as nat,
            opt_view(*base_file_name),
            success,
        );
        assert(s@ =~= dir_part + name);
        if n > 0 && output_dir@.last() != '/' {
            assert(dir_part =~= output_dir@ + seq!['/']);
        } else {
            assert(dir_part =~= output_dir@);
        }
    }
    s
}

/// Two different requests of a run never write to the same file, whatever
/// their outcomes and labels: the zero-padded request numbers differ.
pub proof fn lemma_output_files_distinct(
    dir: Seq<char>,
    num_requests: nat,
    i: nat,
    j: nat,
    label_i: Option<Seq<char>>,
    label_j: Option<Seq<char>>,
    success_i: bool,
    success_j: bool,
)
    requires
        i < num_requests,
        j < num_requests,
        i != j,
    ensures
        join_path(dir, output_file_name(num_requests, i + 1, label_i, success_i)) != join_path(
            dir,
            output_file_name(num_requests, j + 1, label_j, success_j),
        ),
{
    reveal_strlit("success");
    reveal_strlit("failure");
    let w = decimal(num_requests).len();
    let name_i = output_file_name(num_requests, i + 1, label_i, success_i);
    let name_j = output_file_name(num_requests, j + 1, label_j, success_j);
    let pad_i = zero_padded(i + 1, w);
    let pad_j = zero_padded(j + 1, w);
    lemma_decimal_len_monotonic(i + 1, num_requests);
    lemma_decimal_len_monotonic(j + 1, num_requests);
    lemma_zero_padded_len(i + 1, w);
    lemma_zero_padded_len(j + 1, w);
    lemma_zero_padded_value(i + 1, w);
    lemma_zero_padded_value(j + 1, w);
    assert(outcome_word(success_i).len() == 7);
    assert(outcome_word(success_j).len() == 7);
    assert(name_i.subrange(8, 8 + w as int) =~= pad_i);
    assert(name_j.subrange(8, 8 + w as int) =~= pad_j);
    let path_i = join_path(dir, name_i);
    let path_j = join_path(dir, name_j);
    if path_i == path_j {
        let k = path_i.len() - name_i.len();
        assert(path_i.subrange(k, path_i.len() as int) =~= name_i);
        assert(path_j.subrange(k, path_j.len() as int) =~= name_j);
        assert(pad_i == pad_j);
    }
}

/// The file of a failed request is labelled `failure`, never `success`.
pub proof fn lemma_failure_file_label(num_requests: nat, iteration: nat, label: Option<Seq<char>>)
    ensures
        output_file_name(num_requests, iteration, label, false).subrange(0, 8) == "failure-"@,
        output_file_name(num_requests, iteration, label, false).subrange(0, 8) != "success-"@,
{
    reveal_strlit("failure");
    reveal_strlit("success");
    reveal_strlit("failure-");
    reveal_strlit("success-");
    let name = output_file_name(num_requests, iteration, label, false);
    assert(name.subrange(0, 8) =~= "failure-"@);
    assert(name.subrange(0, 8)[0] != "success-"@[0]);
}

} // verus!
