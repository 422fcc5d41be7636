//! What library search, build steps, layer shapes and host tables are for.

use vstd::arithmetic::power2::pow2;
use vstd::prelude::*;

use crate::decoder12::config;
use crate::decoder12::index;
use crate::device::op::{LayerWeight, Weight};
use crate::fixtures;
use crate::codec::weights::{FormModel, Slot};
use crate::gpu::library::{self, Listing};
use crate::gpu::profile;
use crate::gpu::status::{self, BuildCall, BuildStep};
use crate::layer::dims::{self, Dims, HostLayer};
use crate::layer::shapes::{self, LayerShapes, Widths};
use crate::npy::NpyF32;
use crate::scan;
use crate::text;

verus! {

/// A path below a directory has one slash between the two, unless it is absolute.
pub proof fn paths_are_joined_with_one_slash(base: Seq<char>, leaf: Seq<char>)
    requires
        base.len() > 0,
        leaf.len() > 0,
        leaf[0] != '/',
    ensures
        base.last() != '/' ==> library::path_below(base, leaf) == base + seq!['/'] + leaf,
        base.last() == '/' ==> library::path_below(base, leaf) == base + leaf,
        library::path_below(base, seq!['/'] + leaf) == seq!['/'] + leaf,
{
    reveal_strlit("/");
    assert("/"@ =~= seq!['/']);
    assert((seq!['/'] + leaf)[0] == '/');
}

/// Libraries are searched for where the user says, below the two variables in their order,
/// and then in the usual places.
pub proof fn users_come_before_usual_places(rocm: Option<Seq<char>>, hip: Option<Seq<char>>)
    ensures
        ({
            let dirs = library::search_dirs(rocm, hip);
            let n = dirs.len();
            &&& n >= 2 && dirs[n - 2] == "/opt/rocm/lib"@ && dirs[n - 1] == "/opt/rocm-7.2.4/lib"@
            &&& rocm matches Some(path) ==> dirs[0] == library::path_below(path, "lib"@)
            &&& hip matches Some(path) ==> dirs[n - 3] == library::path_below(path, "lib"@)
            &&& n == 2 + (if rocm is Some {
                1int
            } else {
                0
            }) + (if hip is Some {
                1int
            } else {
                0
            })
        }),
{
}

proof fn lemma_exact(listings: Seq<Listing>, name: Seq<char>, from: int, i: int)
    requires
        0 <= from <= i < listings.len(),
        listings[i].exact,
        forall|j: int| from <= j < i ==> !(#[trigger] listings[j]).exact,
    ensures
        library::exact_path(listings, name, from) == Some(
            library::path_below(listings[i].dir@, name),
        ),
    decreases i - from,
{
    if from < i {
        lemma_exact(listings, name, from + 1, i);
    }
}

proof fn lemma_no_exact(listings: Seq<Listing>, name: Seq<char>, from: int)
    requires
        0 <= from,
        forall|j: int| from <= j < listings.len() ==> !(#[trigger] listings[j]).exact,
    ensures
        library::exact_path(listings, name, from) is None,
    decreases listings.len() - from,
{
    if from < listings.len() {
        lemma_no_exact(listings, name, from + 1);
    }
}

proof fn lemma_first_entry(entries: Seq<Seq<char>>, name: Seq<char>, from: int)
    requires
        0 <= from <= entries.len(),
    ensures
        match library::first_entry(entries, name, from) {
            Some(entry) => exists|i: int|
                from <= i < entries.len() && #[trigger] entries[i] == entry && scan::starts_with(
                    entry,
                    name,
                ) && forall|j: int|
                    from <= j < i ==> !scan::starts_with(#[trigger] entries[j], name),
            None => forall|j: int|
                from <= j < entries.len() ==> !scan::starts_with(#[trigger] entries[j], name),
        },
    decreases entries.len() - from,
{
    if from < entries.len() && !scan::starts_with(entries[from], name) {
        lemma_first_entry(entries, name, from + 1);
    } else if from < entries.len() {
        assert(entries[from] == entries[from]);
    }
}

proof fn lemma_versioned(listings: Seq<Listing>, name: Seq<char>, from: int)
    requires
        0 <= from <= listings.len(),
    ensures
        match library::versioned_path(listings, name, from) {
            Some(path) => exists|i: int|
                from <= i < listings.len() && (library::first_entry(
                    library::texts((#[trigger] listings[i]).entries@),
                    name,
                    0,
                ) matches Some(entry) && path == library::path_below(listings[i].dir@, entry))
                    && forall|j: int|
                    from <= j < i ==> library::first_entry(
                        library::texts((#[trigger] listings[j]).entries@),
                        name,
                        0,
                    ) is None,
            None => forall|j: int|
                from <= j < listings.len() ==> library::first_entry(
                    library::texts((#[trigger] listings[j]).entries@),
                    name,
                    0,
                ) is None,
        },
    decreases listings.len() - from,
{
    if from < listings.len() {
        if library::first_entry(library::texts(listings[from].entries@), name, 0) is None {
            lemma_versioned(listings, name, from + 1);
        } else {
            assert(listings[from] == listings[from]);
        }
    }
}

/// A library of exactly the name is found in the first directory that has it, even where an
/// earlier directory has a version of it. Without any, a version of it is found in the first
/// directory that has one: a file whose name starts with the name, and no earlier file of
/// the directory does.
pub proof fn exact_names_come_before_versions(
    listings: Seq<Listing>,
    name: Seq<char>,
    i: int,
)
    ensures
        0 <= i < listings.len() && listings[i].exact && (forall|j: int|
            0 <= j < i ==> !(#[trigger] listings[j]).exact) ==> library::library_path(
            listings,
            name,
        ) == Some(library::path_below(listings[i].dir@, name)),
        (forall|j: int| 0 <= j < listings.len() ==> !(#[trigger] listings[j]).exact)
            ==> library::library_path(listings, name) == library::versioned_path(listings, name, 0),
        match library::versioned_path(listings, name, 0) {
            Some(path) => exists|k: int, e: int|
                0 <= k < listings.len() && 0 <= e < listings[k].entries@.len() && path
                    == library::path_below(
                    (#[trigger] listings[k]).dir@,
                    (#[trigger] listings[k].entries@[e])@,
                ) && scan::starts_with(listings[k].entries@[e]@, name),
            None => forall|k: int, e: int|
                0 <= k < listings.len() && 0 <= e < (#[trigger] listings[k]).entries@.len()
                    ==> !scan::starts_with((#[trigger] listings[k].entries@[e])@, name),
        },
{
    if 0 <= i < listings.len() && listings[i].exact && (forall|j: int|
        0 <= j < i ==> !(#[trigger] listings[j]).exact) {
        lemma_exact(listings, name, 0, i);
    }
    if forall|j: int| 0 <= j < listings.len() ==> !(#[trigger] listings[j]).exact {
        lemma_no_exact(listings, name, 0);
    }
    lemma_versioned(listings, name, 0);
    match library::versioned_path(listings, name, 0) {
        Some(path) => {
            let k = choose|k: int|
                0 <= k < listings.len() && (library::first_entry(
                    library::texts((#[trigger] listings[k]).entries@),
                    name,
                    0,
                ) matches Some(entry) && path == library::path_below(listings[k].dir@, entry))
                    && forall|j: int|
                    0 <= j < k ==> library::first_entry(
                        library::texts((#[trigger] listings[j]).entries@),
                        name,
                        0,
                    ) is None;
            let entries = library::texts(listings[k].entries@);
            lemma_first_entry(entries, name, 0);
            let entry = library::first_entry(entries, name, 0)->0;
            let e = choose|e: int|
                0 <= e < entries.len() && #[trigger] entries[e] == entry && scan::starts_with(
                    entry,
                    name,
                ) && forall|j: int| 0 <= j < e ==> !scan::starts_with(#[trigger] entries[j], name);
            assert(listings[k].entries@[e]@ == entries[e]);
        },
        None => {
            assert forall|k: int, e: int|
                0 <= k < listings.len() && 0 <= e < (#[trigger] listings[k]).entries@.len()
                implies !scan::starts_with((#[trigger] listings[k].entries@[e])@, name) by {
                let entries = library::texts(listings[k].entries@);
                lemma_first_entry(entries, name, 0);
                assert(entries[e] == listings[k].entries@[e]@);
            }
        },
    }
}

/// A log loses the NUL characters behind it and nothing else.
pub proof fn logs_lose_only_nuls(log: Seq<char>)
    ensures
        ({
            let kept = status::without_nuls(log);
            &&& kept.len() <= log.len()
            &&& kept == log.take(kept.len() as int)
            &&& forall|i: int| kept.len() <= i < log.len() ==> #[trigger] log[i] == '\0'
            &&& kept.len() > 0 ==> kept.last() != '\0'
        }),
    decreases log.len(),
{
    if log.len() > 0 && log.last() == '\0' {
        logs_lose_only_nuls(log.drop_last());
        let kept = status::without_nuls(log);
        assert(kept =~= log.take(kept.len() as int));
        assert forall|i: int| kept.len() <= i < log.len() implies #[trigger] log[i] == '\0' by {
            if i < log.len() - 1 {
                assert(log.drop_last()[i] == log[i]);
            }
        }
    } else {
        assert(log =~= log.take(log.len() as int));
    }
}

/// A program is created, compiled, asked for its size and its code, destroyed, and its code
/// is loaded. A call that fails ends the build, other than that of a program to be
/// destroyed; the program of a failed compilation is destroyed.
pub proof fn builds_take_six_calls(call: BuildCall)
    ensures
        status::step_after(BuildCall::CreateProgram, true) == BuildStep::Call(
            BuildCall::CompileProgram,
        ),
        status::step_after(BuildCall::CompileProgram, true) == BuildStep::Call(
            BuildCall::GetCodeSize,
        ),
        status::step_after(BuildCall::GetCodeSize, true) == BuildStep::Call(BuildCall::GetCode),
        status::step_after(BuildCall::GetCode, true) == BuildStep::Call(BuildCall::DestroyProgram),
        status::step_after(BuildCall::DestroyProgram, true) == BuildStep::Call(
            BuildCall::LoadModule,
        ),
        status::step_after(BuildCall::DestroyProgram, false) == BuildStep::Call(
            BuildCall::LoadModule,
        ),
        status::step_after(BuildCall::LoadModule, true) == BuildStep::Done,
        call != BuildCall::DestroyProgram ==> status::step_after(call, false) == (BuildStep::Fail {
            destroy_program: call == BuildCall::CompileProgram,
        }),
{
}

/// Ranges are reported for a one, a true, a yes or an on, as they are written here, and for
/// nothing else.
pub proof fn ranges_are_switched_on_by_four_words(word: Seq<char>)
    ensures
        profile::is_on(word) <==> seq!["1"@, "true"@, "yes"@, "on"@].contains(word),
{
    let words = seq!["1"@, "true"@, "yes"@, "on"@];
    assert(words[0] == "1"@ && words[1] == "true"@ && words[2] == "yes"@ && words[3] == "on"@);
}

/// The tensors of a layer of the talker are stored below its number, each under its own
/// name, and matrices are transposed.
pub proof fn talker_layers_ask_for_their_own_tensors(index: usize)
    ensures
        ({
            let list = dims::talker_requests(index);
            let root = "talker.model.layers."@ + text::decimal(index as nat);
            let asks = |i: int, part: LayerWeight, leaf: Seq<char>, matrix: bool|
                {
                    &&& list[i].slot == Slot::Tensor(Weight::Layer { index, part })
                    &&& list[i].name == root + leaf
                    &&& list[i].form == if matrix {
                        FormModel::Linear
                    } else {
                        FormModel::Vector
                    }
                };
            &&& list.len() == 11
            &&& asks(0, LayerWeight::InputGamma, ".input_layernorm.weight"@, false)
            &&& asks(1, LayerWeight::QueryGamma, ".self_attn.q_norm.weight"@, false)
            &&& asks(2, LayerWeight::KeyGamma, ".self_attn.k_norm.weight"@, false)
            &&& asks(3, LayerWeight::Query, ".self_attn.q_proj.weight"@, true)
            &&& asks(4, LayerWeight::Key, ".self_attn.k_proj.weight"@, true)
            &&& asks(5, LayerWeight::Value, ".self_attn.v_proj.weight"@, true)
            &&& asks(6, LayerWeight::Output, ".self_attn.o_proj.weight"@, true)
            &&& asks(7, LayerWeight::PostGamma, ".post_attention_layernorm.weight"@, false)
            &&& asks(8, LayerWeight::Gate, ".mlp.gate_proj.weight"@, true)
            &&& asks(9, LayerWeight::Up, ".mlp.up_proj.weight"@, true)
            &&& asks(10, LayerWeight::Down, ".mlp.down_proj.weight"@, true)
        }),
{
    reveal_strlit("");
    let root = "talker.model.layers."@ + text::decimal(index as nat);
    assert(root + ""@ =~= root);
}

/// Each field of a layer holds the tensor that was asked for in its place.
pub proof fn layers_hold_their_tensors_in_order(layer: HostLayer)
    ensures
        ({
            let t = layer.tensors();
            &&& t.len() == 11
            &&& t[0] == layer.input_gamma@ && t[1] == layer.q_gamma@ && t[2] == layer.k_gamma@
            &&& t[3] == layer.q_weight@ && t[4] == layer.k_weight@ && t[5] == layer.v_weight@
            &&& t[6] == layer.o_weight@ && t[7] == layer.post_attention_gamma@
            &&& t[8] == layer.gate_weight@ && t[9] == layer.up_weight@ && t[10]
                == layer.down_weight@
        }),
{
}

/// The dimensions of a layer are those that its tensors have: where its matrices are whole
/// rows, each of them has as many numbers as its two widths say, and the widths of the
/// projections are whole numbers of heads.
pub proof fn layer_dimensions_are_those_of_its_tensors(layer: HostLayer, scale: u32)
    requires
        layer.consistent(),
        0 < layer.input_gamma@.len() <= usize::MAX,
        layer.q_weight@.len() <= usize::MAX,
        layer.k_weight@.len() <= usize::MAX,
        layer.gate_weight@.len() <= usize::MAX,
        layer.q_gamma@.len() <= usize::MAX,
        layer.q_weight@.len() as int % layer.input_gamma@.len() as int == 0,
        layer.k_weight@.len() as int % layer.input_gamma@.len() as int == 0,
        layer.gate_weight@.len() as int % layer.input_gamma@.len() as int == 0,
    ensures
        ({
            let d = layer.dims(scale);
            &&& d.hidden == layer.input_gamma@.len()
            &&& d.head_dim == layer.q_gamma@.len()
            &&& d.head_dim == layer.k_gamma@.len()
            &&& d.q_heads * d.head_dim == d.q_out
            &&& d.kv_heads * d.head_dim == d.kv_out
            &&& d.hidden * d.q_out == layer.q_weight@.len()
            &&& d.hidden * d.kv_out == layer.k_weight@.len()
            &&& d.hidden * d.kv_out == layer.v_weight@.len()
            &&& d.q_out * d.hidden == layer.o_weight@.len()
            &&& d.hidden == layer.post_attention_gamma@.len()
            &&& d.hidden * d.intermediate == layer.gate_weight@.len()
            &&& d.hidden * d.intermediate == layer.up_weight@.len()
            &&& d.intermediate * d.hidden == layer.down_weight@.len()
            &&& d.scale == scale
        }),
{
    let h = layer.input_gamma@.len() as int;
    let w = layer.q_gamma@.len() as int;
    let q = layer.q_weight@.len() as int;
    let k = layer.k_weight@.len() as int;
    let g = layer.gate_weight@.len() as int;
    vstd::arithmetic::div_mod::lemma_fundamental_div_mod(q, h);
    vstd::arithmetic::div_mod::lemma_fundamental_div_mod(k, h);
    vstd::arithmetic::div_mod::lemma_fundamental_div_mod(g, h);
    vstd::arithmetic::div_mod::lemma_fundamental_div_mod(q / h, w);
    vstd::arithmetic::div_mod::lemma_fundamental_div_mod(k / h, w);
    lemma_quotient(q, h);
    lemma_quotient(k, h);
    lemma_quotient(g, h);
    lemma_quotient(q / h, w);
    lemma_quotient(k / h, w);
    assert(w * ((q / h) / w) == ((q / h) / w) * w) by (nonlinear_arith);
    assert(w * ((k / h) / w) == ((k / h) / w) * w) by (nonlinear_arith);
}

proof fn lemma_quotient(a: int, b: int)
    requires
        0 <= a,
        0 < b,
    ensures
        0 <= a / b <= a,
{
    vstd::arithmetic::div_mod::lemma_div_pos_is_pos(a, b);
    vstd::arithmetic::div_mod::lemma_div_is_ordered_by_denominator(a, 1, b);
}

/// The leading columns of a matrix: entry `j` of row `i` is entry `j` of row `i` of the
/// whole.
pub proof fn leading_columns_keep_their_rows(
    values: Seq<u32>,
    rows: int,
    cols: int,
    selected: int,
    i: int,
    j: int,
)
    requires
        0 <= i < rows,
        0 <= j < selected,
    ensures
        0 <= i * selected + j < dims::leading_columns(values, rows, cols, selected).len(),
        dims::leading_columns(values, rows, cols, selected).len() == rows * selected,
        dims::leading_columns(values, rows, cols, selected)[i * selected + j] == values[i * cols
            + j],
{
    assert(0 <= i * selected + j < rows * selected) by (nonlinear_arith)
        requires
            0 <= i,
            i + 1 <= rows,
            0 <= j < selected,
    ;
    vstd::arithmetic::div_mod::lemma_fundamental_div_mod_converse(i * selected + j, selected, i, j);
}

/// Numbers by step lie step by step, a step head by head, and a head entry by entry; numbers
/// by head lie head by head, a head step by step, and a step entry by entry.
pub proof fn heads_and_steps_change_places(
    s: int,
    h: int,
    d: int,
    heads: int,
    steps: int,
    head_dim: int,
)
    ensures
        shapes::by_step(0, 0, 0, heads, head_dim) == 0,
        shapes::by_step(s, h, d + 1, heads, head_dim) == shapes::by_step(s, h, d, heads, head_dim)
            + 1,
        shapes::by_step(s, h + 1, d, heads, head_dim) == shapes::by_step(s, h, d, heads, head_dim)
            + head_dim,
        shapes::by_step(s + 1, h, d, heads, head_dim) == shapes::by_step(s, h, d, heads, head_dim)
            + heads * head_dim,
        shapes::by_head(0, 0, 0, steps, head_dim) == 0,
        shapes::by_head(s, h, d + 1, steps, head_dim) == shapes::by_head(s, h, d, steps, head_dim)
            + 1,
        shapes::by_head(s + 1, h, d, steps, head_dim) == shapes::by_head(s, h, d, steps, head_dim)
            + head_dim,
        shapes::by_head(s, h + 1, d, steps, head_dim) == shapes::by_head(s, h, d, steps, head_dim)
            + steps * head_dim,
{
    assert((0 * heads + 0) * head_dim + 0 == 0) by (nonlinear_arith);
    assert((0 * steps + 0) * head_dim + 0 == 0) by (nonlinear_arith);
    assert((s * heads + (h + 1)) * head_dim == (s * heads + h) * head_dim + head_dim)
        by (nonlinear_arith);
    assert(((s + 1) * heads + h) * head_dim == (s * heads + h) * head_dim + heads * head_dim)
        by (nonlinear_arith);
    assert((h * steps + (s + 1)) * head_dim == (h * steps + s) * head_dim + head_dim)
        by (nonlinear_arith);
    assert(((h + 1) * steps + s) * head_dim == (h * steps + s) * head_dim + steps * head_dim)
        by (nonlinear_arith);
}

/// Every block of the decoder halves the channels: behind `blocks` blocks there are as many
/// as go into the first one, divided by two as often as there are blocks.
pub proof fn blocks_halve_the_channels(channels: nat, blocks: nat)
    ensures
        config::halved(channels, blocks) * pow2(blocks) <= channels,
        channels < (config::halved(channels, blocks) + 1) * pow2(blocks),
    decreases blocks,
{
    vstd::arithmetic::power2::lemma2_to64();
    if blocks > 0 {
        let before = config::halved(channels, (blocks - 1) as nat) as int;
        let p = pow2((blocks - 1) as nat) as int;
        blocks_halve_the_channels(channels, (blocks - 1) as nat);
        vstd::arithmetic::power2::lemma_pow2_unfold(blocks);
        let half = before / 2;
        assert(half * (2 * p) <= before * p) by (nonlinear_arith)
            requires
                2 * half <= before,
                0 <= p,
        ;
        assert((before + 1) * p <= (half + 1) * (2 * p)) by (nonlinear_arith)
            requires
                before + 1 <= 2 * (half + 1),
                0 <= p,
        ;
    }
}

/// A transposed convolution loses behind its result what its kernel reaches beyond its
/// stride, and nothing where it does not.
pub proof fn transposed_convolutions_lose_their_overhang(kernel: int, stride: int)
    ensures
        kernel >= stride ==> config::right_trim_of(kernel, stride) + stride == kernel,
        kernel < stride ==> config::right_trim_of(kernel, stride) == 0,
        kernel == 2 * stride && stride >= 0 ==> config::right_trim_of(kernel, stride) == stride,
{
}

/// Indices name the rows of a codebook from zero on, negative ones the first row; codes are
/// counted from zero again behind 2047.
pub proof fn indices_name_rows(at: i32)
    ensures
        at >= 0 ==> index::row_of(at) == at,
        at < 0 ==> index::row_of(at) == 0,
        index::CODE_RANGE == 2048,
{
}

/// A list is written between brackets, its numbers in their order with a comma and a blank
/// between two of them.
pub proof fn lists_are_written_in_order(items: Seq<int>, last: int)
    ensures
        fixtures::numbers_text(Seq::empty()) == seq!['[', ']'],
        fixtures::numbers_text(seq![last]) == seq!['['] + text::decimal_int(last) + seq![']'],
        items.len() > 0 ==> fixtures::joined(items.push(last)) == fixtures::joined(items) + seq![
            ',',
            ' ',
        ] + text::decimal_int(last),
{
    assert(fixtures::numbers_text(Seq::empty()) =~= seq!['[', ']']);
    assert(items.push(last).drop_last() =~= items);
}

/// Stored tokens are the numbers of an array, each rounded, in their order.
pub proof fn stored_tokens_are_rounded_numbers(array: NpyF32, i: int)
    requires
        0 <= i < array.data@.len(),
    ensures
        fixtures::stored_tokens(array).len() == array.data@.len(),
        fixtures::stored_tokens(array)[i] == crate::npy::rounded(
            array.data@[i],
            0,
            0xffff_ffff,
        ) as u32,
{
}

/// A layer whose tensors have the sizes of one layer is one, whatever its dimensions are, and
/// these are its dimensions.
pub proof fn layers_of_any_dimensions_are_accepted(layer: HostLayer, scale: u32, d: Dims)
    requires
        d.hidden > 0,
        d.head_dim > 0,
        d.scale == scale,
        d.q_out == d.q_heads * d.head_dim,
        d.kv_out == d.kv_heads * d.head_dim,
        layer.input_gamma@.len() == d.hidden,
        layer.q_gamma@.len() == d.head_dim,
        layer.k_gamma@.len() == d.head_dim,
        layer.q_weight@.len() == d.hidden * d.q_out,
        layer.k_weight@.len() == d.hidden * d.kv_out,
        layer.v_weight@.len() == d.hidden * d.kv_out,
        layer.o_weight@.len() == d.q_out * d.hidden,
        layer.post_attention_gamma@.len() == d.hidden,
        layer.gate_weight@.len() == d.hidden * d.intermediate,
        layer.up_weight@.len() == d.hidden * d.intermediate,
        layer.down_weight@.len() == d.intermediate * d.hidden,
    ensures
        layer.consistent(),
        layer.dims(scale) == d,
{
    let h = d.hidden as int;
    let w = d.head_dim as int;
    lemma_exact_quotient(h, d.q_out as int);
    lemma_exact_quotient(h, d.kv_out as int);
    lemma_exact_quotient(h, d.intermediate as int);
    lemma_exact_quotient(w, d.q_heads as int);
    lemma_exact_quotient(w, d.kv_heads as int);
    assert(w * d.q_heads == d.q_heads * d.head_dim) by (nonlinear_arith)
        requires
            w == d.head_dim,
    ;
    assert(w * d.kv_heads == d.kv_heads * d.head_dim) by (nonlinear_arith)
        requires
            w == d.head_dim,
    ;
}

proof fn lemma_exact_quotient(a: int, b: int)
    requires
        a > 0,
        b >= 0,
    ensures
        (a * b) / a == b,
        (a * b) % a == 0,
{
    assert(a * b == b * a) by (nonlinear_arith);
    vstd::arithmetic::div_mod::lemma_fundamental_div_mod_converse(a * b, a, b, 0);
}

/// The shapes of a layer go together if and only if its attention works on its width, all
/// heads have the width of their norms, keys and values have the same, the output projection
/// takes all heads, and the block behind it widens and narrows from and to the width of the
/// layer.
pub proof fn shapes_of_a_layer_go_together(shapes: LayerShapes, heads: int, kv_heads: int)
    requires
        shapes.q_norm > 0,
    ensures
        ({
            let h = shapes.hidden;
            let inner = shapes.gate.outputs;
            &&& shapes.fault() is None ==> {
                &&& shapes.q.inputs == h && shapes.k.inputs == h && shapes.v.inputs == h
                &&& shapes.o.outputs == h && shapes.o.inputs == shapes.q.outputs
                &&& shapes.k_norm == shapes.q_norm && shapes.v.outputs == shapes.k.outputs
                &&& shapes.q.outputs as int % shapes.q_norm as int == 0
                &&& shapes.k.outputs as int % shapes.q_norm as int == 0
                &&& shapes.post_norm == h && shapes.gate.inputs == h && shapes.up.inputs == h
                &&& shapes.up.outputs == inner && shapes.down.inputs == inner
                &&& shapes.down.outputs == h
            }
            &&& shapes.q.inputs == h && shapes.k.inputs == h && shapes.v.inputs == h
                && shapes.o.outputs == h && shapes.o.inputs == shapes.q.outputs && shapes.k_norm
                == shapes.q_norm && shapes.v.outputs == shapes.k.outputs && heads >= 0 && kv_heads
                >= 0 && shapes.q.outputs == shapes.q_norm * heads && shapes.k.outputs
                == shapes.q_norm * kv_heads && shapes.post_norm == h && shapes.gate.inputs == h
                && shapes.up.inputs == h && shapes.up.outputs == inner && shapes.down.inputs
                == inner && shapes.down.outputs == h ==> shapes.fault() is None
        }),
{
    if heads >= 0 {
        lemma_exact_quotient(shapes.q_norm as int, heads);
    }
    if kv_heads >= 0 {
        lemma_exact_quotient(shapes.q_norm as int, kv_heads);
    }
}

/// A feed-forward block goes together if and only if its three matrices lead from the width
/// of its norm to one inner width and back.
pub proof fn blocks_lead_there_and_back(gamma: usize, gate: Widths, up: Widths, down: Widths)
    ensures
        shapes::block_fault(gamma, gate, up, down) is None <==> gate.inputs == gamma && up.inputs
            == gamma && down.outputs == gamma && gate.outputs == up.outputs && up.outputs
            == down.inputs,
{
}

} // verus!
