//! Decisions around ROCm calls, and the plans that run on the device.

use qwen3_tts_hip::codec::decoder::{block_channels, causal_padding, decoder_plan};
use qwen3_tts_hip::codec::dims::{TRANSFORMER_EPSILON, TRANSFORMER_SCALE, TRANSFORMER_THETA};
use qwen3_tts_hip::codec::initial::HipCodecInitial;
use qwen3_tts_hip::codec::transformer::{transformer_plan, OUTPUT_CT};
use qwen3_tts_hip::codec::upsample::upsample_plan;
use qwen3_tts_hip::device::launch::{
    count_elements, launch, symbol, Param, Source, LAYERNORM_EPSILON, MINUS_ONE, ONE,
};
use qwen3_tts_hip::device::op::{Call, Inputs, Op, Operand, Weight};
use qwen3_tts_hip::device::plan::Plan;
use qwen3_tts_hip::error::Error;
use qwen3_tts_hip::gpu::blas::{Factor, RocblasHandle};
use qwen3_tts_hip::gpu::buffer::{CopyRange, DeviceBuffer};
use qwen3_tts_hip::gpu::library::{find_library, library_dirs, Listing};
use qwen3_tts_hip::gpu::profile::{range, ranges_enabled};
use qwen3_tts_hip::gpu::status::{
    after, check, check_hiprtc, check_rocblas, program_log, reported_as, returned_null, BuildCall,
    BuildStep,
};
use qwen3_tts_hip::layer::dims::Dims;
use qwen3_tts_hip::layer::mlp::mlp_block_plan;
use qwen3_tts_hip::layer::plan::{
    prefill_cache, run_decode_step, run_layer_gpu, workspace_plan, Span,
};

fn message<T>(result: Result<T, Error>) -> String {
    match result {
        Ok(_) => panic!("expected an error"),
        Err(e) => e.message(),
    }
}

#[test]
fn statuses_are_checked() {
    assert!(check("hipMalloc", 0, None).is_ok());
    assert_eq!(
        message(check("hipMalloc", 2, Some("out of memory".to_string()))),
        "HIP call hipMalloc failed with status 2: out of memory"
    );
    assert_eq!(
        message(check("hipMalloc", 2, None)),
        "HIP call hipMalloc failed with status 2: unknown HIP error"
    );
    assert!(check_rocblas("rocblas_sgemm", 0).is_ok());
    assert_eq!(
        message(check_rocblas("rocblas_sgemm", 5)),
        "rocBLAS call rocblas_sgemm failed with status 5"
    );
    assert!(check_hiprtc("c", 0, Some(Ok("ignored".to_string()))).is_ok());
    assert_eq!(
        message(check_hiprtc("c", 6, Some(Ok("line 1".to_string())))),
        "HIPRTC call c failed with status 6: line 1"
    );
    assert_eq!(message(check_hiprtc("c", 6, None)), "HIPRTC call c failed with status 6: ");
    let log = Error::InvalidInput("no log".to_string());
    assert_eq!(message(check_hiprtc("c", 6, Some(Err(log)))), "invalid input: no log");
    assert_eq!(program_log("error\0here\0\0"), "error\0here");
    assert_eq!(program_log("\0"), "");
    assert_eq!(returned_null("hipMalloc").message(), "invalid input: hipMalloc returned null");
}

#[test]
fn modules_are_built_call_by_call() {
    let mut call = BuildCall::CreateProgram;
    let mut names = Vec::new();
    loop {
        names.push(reported_as(call).0);
        match after(call, true) {
            BuildStep::Call(next) => call = next,
            BuildStep::Done => break,
            BuildStep::Fail { .. } => panic!("all calls succeed"),
        }
    }
    assert_eq!(
        names,
        [
            "hiprtcCreateProgram",
            "hiprtcCompileProgram",
            "hiprtcGetCodeSize",
            "hiprtcGetCode",
            "hiprtcDestroyProgram",
            "hipModuleLoadData"
        ]
    );
    assert_eq!(after(BuildCall::CompileProgram, false), BuildStep::Fail { destroy_program: true });
    assert_eq!(after(BuildCall::GetCode, false), BuildStep::Fail { destroy_program: false });
    assert!(reported_as(BuildCall::GetCode).1 && !reported_as(BuildCall::LoadModule).1);
}

fn listing(dir: &str, exact: bool, entries: &[&str]) -> Listing {
    Listing {
        dir: dir.to_string(),
        exact,
        entries: entries.iter().map(|e| e.to_string()).collect(),
    }
}

#[test]
fn libraries_are_looked_for() {
    assert_eq!(library_dirs(None, None), ["/opt/rocm/lib", "/opt/rocm-7.2.4/lib"]);
    assert_eq!(
        library_dirs(Some("/a"), Some("/b/")),
        ["/a/lib", "/b/lib", "/opt/rocm/lib", "/opt/rocm-7.2.4/lib"]
    );
    let name = "libamdhip64.so";
    let versioned = listing("/a", false, &["x.so", "libamdhip64.so.7", "libamdhip64.so.6"]);
    let exact = listing("/b", true, &[name]);
    assert!(matches!(find_library(name, &vec![versioned, exact]), Ok(p) if p == "/b/libamdhip64.so"));
    let versioned = listing("/a", false, &["x.so", "libamdhip64.so.7", "libamdhip64.so.6"]);
    let empty = listing("/z", false, &[]);
    assert!(matches!(find_library(name, &vec![empty, versioned]), Ok(p) if p == "/a/libamdhip64.so.7"));
    assert_eq!(
        message(find_library(name, &vec![listing("/a", false, &["libhip"])])),
        "could not find ROCm library matching libamdhip64.so"
    );
}

#[test]
fn ranges_are_opt_in() {
    for word in ["1", "true", "yes", "on"] {
        assert!(ranges_enabled(Some(word)));
    }
    assert!(!ranges_enabled(Some("TRUE")) && !ranges_enabled(Some("0")) && !ranges_enabled(None));
    let guard = range(true, "engine.rollout");
    assert!(guard.active && guard.pops(true) && !guard.pops(false));
    assert!(!range(false, "engine.rollout").active);
    assert!(!range(true, "a\0b").active);
}

#[test]
fn buffers_are_kept_within_their_extents() {
    let buffer = DeviceBuffer::new(10, 4).unwrap_or_else(|e| panic!("{}", e.message()));
    assert_eq!((buffer.len(), buffer.is_empty(), buffer.byte_len()), (10, false, 40));
    assert_eq!(message(DeviceBuffer::new(0, 4)), "invalid input: device buffer length must be non-zero");
    assert_eq!(message(DeviceBuffer::new(usize::MAX, 4)), "invalid input: device buffer size overflow");
    assert!(matches!(buffer.as_ptr_at(10), Ok(40)));
    assert_eq!(message(buffer.as_ptr_at(11)), "invalid input: buffer offset 11 exceeds length 10");
    assert!(matches!(buffer.copy_from_host(10), Ok(40)));
    assert_eq!(
        message(buffer.copy_from_host(9)),
        "invalid input: host length 9 does not match device length 10"
    );
    let source = DeviceBuffer::new(6, 4).unwrap_or_else(|e| panic!("{}", e.message()));
    assert_eq!(
        message(buffer.copy_from_device(&source)),
        "invalid input: source length 6 does not match destination length 10"
    );
    assert!(matches!(
        buffer.copy_from_device_range_at(7, &source, 2, 3),
        Ok(CopyRange { destination_offset: 28, source_offset: 8, bytes: 12 })
    ));
    assert!(matches!(buffer.copy_from_device_range(&source, 0, 6), Ok(r) if r.bytes == 24));
    assert_eq!(
        message(buffer.copy_from_device_range_at(8, &source, 2, 3)),
        "invalid input: invalid D2D range: destination length 10, source length 6, destination_offset=8, source_offset=2, len=3"
    );
}

#[test]
fn row_products_are_column_products_with_swapped_factors() {
    let handle = RocblasHandle::new();
    let (m, n, k) = (2usize, 3usize, 4usize);
    let call = handle.sgemm_row_major(8, 12, 6, m, n, k).unwrap_or_else(|e| panic!("{}", e.message()));
    let a: Vec<i64> = (1..9).collect();
    let b: Vec<i64> = (1..13).map(|x| x * x).collect();
    let pick = |f: Factor| if f == Factor::A { &a } else { &b };
    let (left, right) = (pick(call.left), pick(call.right));
    let mut c = vec![0i64; 6];
    for i in 0..call.m as usize {
        for j in 0..call.n as usize {
            for l in 0..call.k as usize {
                c[j * call.result_stride as usize + i] += left[l * call.left_stride as usize + i]
                    * right[j * call.right_stride as usize + l];
            }
        }
    }
    for i in 0..m {
        for j in 0..n {
            let expected: i64 = (0..k).map(|l| a[i * k + l] * b[l * n + j]).sum();
            assert_eq!(c[i * n + j], expected);
        }
    }
    assert_eq!(
        message(handle.sgemm_row_major(7, 12, 6, m, n, k)),
        "invalid input: A length 7 is smaller than m*k 8"
    );
    assert_eq!(
        message(handle.sgemm_row_major(8, 11, 6, m, n, k)),
        "invalid input: B length 11 is smaller than k*n 12"
    );
    assert_eq!(
        message(handle.sgemm_row_major(8, 12, 5, m, n, k)),
        "invalid input: C length 5 is smaller than m*n 6"
    );
}

#[test]
fn streams_are_switched_once() {
    let mut handle = RocblasHandle::new();
    assert!(!handle.must_switch(0) && handle.must_switch(64));
    assert!(handle.set_stream(64, 0).is_ok());
    assert!(!handle.must_switch(64));
    assert_eq!(
        message(handle.set_stream(0, 3)),
        "rocBLAS call rocblas_set_stream failed with status 3"
    );
    assert_eq!(handle.stream, 64);
}

#[test]
fn launches_cover_their_elements() {
    let call = Call::Gelu { total: 1000 };
    let l = launch(call, Inputs::One(Operand::Input(0)), Operand::Scratch(0));
    assert_eq!((l.grid, l.block, l.shared_bytes), (4, 256, 0));
    assert_eq!(count_elements(call), 1000);
    assert_eq!(
        l.params,
        [Param::Buffer(Operand::Input(0)), Param::Buffer(Operand::Scratch(0)), Param::Int(1000)]
    );
    let call = Call::RmsNorm { rows: 7, cols: 512, epsilon: 1 };
    let l = launch(call, Inputs::Two(Operand::Input(0), Operand::Input(1)), Operand::Scratch(0));
    assert_eq!((l.grid, l.block, l.shared_bytes), (7, 256, 1024));
    assert_eq!(symbol(call), Some((Source::RmsNorm, "rmsnorm_f32")));
    assert_eq!(symbol(Call::Gemm { m: 1, n: 1, k: 1 }), None);
    let call = Call::LayerNorm { rows: 5, cols: 1024 };
    let three = Inputs::Three(Operand::Input(0), Operand::Input(1), Operand::Input(2));
    assert_eq!(launch(call, three, Operand::Scratch(0)).shared_bytes, 2048);
    assert_eq!(f32::from_bits(LAYERNORM_EPSILON), 1e-6);
    assert_eq!(f32::from_bits(ONE), 1.0);
    assert_eq!(f32::from_bits(MINUS_ONE), -1.0);
    assert_eq!(f32::from_bits(TRANSFORMER_EPSILON), 1e-5);
    assert_eq!(f32::from_bits(TRANSFORMER_THETA), 10_000.0);
    assert_eq!(f32::from_bits(TRANSFORMER_SCALE), 1.0 / 64f32.sqrt());
}

/// Runs a plan on the host, where every call only notes itself: no buffer is read before
/// something was put into it, and none is made without elements.
fn trace(plan: &Plan) -> usize {
    trace_after(&[], plan)
}

/// The same, behind calls that make the buffers.
fn trace_after(before: &[Op], plan: &Plan) -> usize {
    let mut filled: Vec<bool> = Vec::new();
    let mut runs = 0;
    for op in before.iter().chain(plan.ops.iter()) {
        match op {
            Op::Alloc { len } => {
                assert!(*len > 0);
                filled.push(false);
            }
            Op::Run { inputs, output, .. } => {
                for operand in inputs.to_vec() {
                    if let Operand::Scratch(i) = operand {
                        assert!(i < filled.len() && filled[i]);
                    }
                }
                match output {
                    Operand::Scratch(i) => filled[*i] = true,
                    Operand::Input(_) => {}
                    Operand::Weight(_) => panic!("weights are not written"),
                }
                runs += 1;
            }
        }
    }
    let made = |ops: &[Op]| ops.iter().filter(|op| matches!(op, Op::Alloc { .. })).count();
    assert_eq!(filled.len(), made(before) + plan.buffers);
    runs
}

#[test]
fn codec_plans_read_what_they_have_written() {
    let codec = HipCodecInitial { tensors: vec![] };
    let codes = [1i32; 32];
    let (plan, output) = codec.run(&codes, 2).unwrap_or_else(|e| panic!("{}", e.message()));
    assert_eq!(trace(&plan), 2);
    assert_eq!((output.pre_conv, output.frames), (Operand::Scratch(1), 2));
    assert_eq!(plan.ops[1], Op::Alloc { len: 2048 });
    let (plan, output) = codec
        .run_pre_transformer(2048, 2)
        .unwrap_or_else(|e| panic!("{}", e.message()));
    assert!(trace(&plan) > 8 * 15);
    assert!(matches!(output, Operand::Scratch(_)));
    assert_eq!(plan.ops, transformer_plan(2, 8).ops);
    let (plan, outputs) = codec.run_upsample_stages(2);
    assert!(trace(&plan) > 2 * 8);
    assert_eq!((outputs.frames_0, outputs.frames_1), (4, 8));
    assert_eq!(plan.ops, upsample_plan(2).0.ops);
    let (plan, outputs) = codec.run_decoder_stages(8);
    assert_eq!(trace(&plan), 1 + 4 * (2 + 3 * 5) + 3);
    assert_eq!((outputs.frames_1, outputs.frames_4), (64, 3840));
    assert_eq!(plan.ops, decoder_plan(8).0.ops);
    assert_eq!(
        message(codec.run(&codes, 3)),
        "invalid input: codes length 32 does not match frames*groups 48"
    );
    assert_eq!(
        message(codec.run(&[], 0)),
        "invalid input: codes length 0 does not match frames*groups 0"
    );
    assert_eq!(
        message(codec.run_pre_transformer(2047, 2)),
        "invalid input: pre_conv length 2047 does not match 2048"
    );
    assert_eq!((causal_padding(7, 3), causal_padding(1, 9), causal_padding(0, 2)), (18, 0, 0));
    assert_eq!(block_channels(0), (1536, 768, 8));
    assert_eq!(block_channels(3), (192, 96, 3));
}

#[test]
fn the_first_step_of_the_codec_reads_the_codebooks() {
    let codec = HipCodecInitial { tensors: vec![] };
    let (plan, _) = codec.run(&[1i32; 16], 1).unwrap_or_else(|e| panic!("{}", e.message()));
    assert_eq!(
        plan.ops[2],
        Op::Run {
            call: Call::RvqProject { frames: 1 },
            inputs: Inputs::Five(
                Operand::Input(0),
                Operand::Weight(Weight::FirstCodebook),
                Operand::Weight(Weight::RestCodebooks),
                Operand::Weight(Weight::FirstProjection),
                Operand::Weight(Weight::RestProjection),
            ),
            output: Operand::Scratch(0),
        }
    );
}

fn dims() -> Dims {
    Dims {
        hidden: 8,
        q_heads: 4,
        kv_heads: 2,
        head_dim: 2,
        q_out: 8,
        kv_out: 4,
        intermediate: 6,
        scale: (1.0f32 / 2f32.sqrt()).to_bits(),
    }
}

#[test]
fn layer_plans_read_what_they_have_written() {
    let span = Span { batch: 1, steps: 3, key_steps: 3, offset: 0 };
    let workspace = workspace_plan(dims(), span);
    assert_eq!(trace(&workspace), 0);
    let runs = trace_after(&workspace.ops, &run_layer_gpu(dims(), span, 0));
    assert!(runs >= 20);
    let step = run_decode_step(dims(), 4, 16, 2);
    assert_eq!(trace(&step), runs + 2);
    let prefix = prefill_cache(dims(), 3, 16, 1);
    assert_eq!(trace(&prefix), 9);
    let stores = prefix
        .ops
        .iter()
        .filter(|op| matches!(op, Op::Run { call: Call::WriteCache { offset: 0, input_steps: 3, cache_steps: 16, .. }, .. }))
        .count();
    assert_eq!(stores, 2);
    let writes = step
        .ops
        .iter()
        .filter(|op| matches!(op, Op::Run { call: Call::WriteCache { offset: 4, cache_steps: 16, .. }, .. }))
        .count();
    assert_eq!(writes, 2);
}

/// For every frame of a buffer, the frames of the input that it rests on.
type Origins = Vec<Vec<bool>>;

fn origins(call: &Call, args: &[Origins]) -> Origins {
    let frames = args[0].len();
    let joined = |a: &[bool], b: &[bool]| a.iter().zip(b).map(|(a, b)| *a || *b).collect::<Vec<_>>();
    (0..frames)
        .map(|frame| match call {
            Call::AttentionScores { .. } | Call::ApplyValue { .. } => args[1][..=frame]
                .iter()
                .fold(args[0][frame].clone(), |so_far, key| joined(&so_far, key)),
            _ => args.iter().fold(vec![false; frames], |so_far, arg| joined(&so_far, &arg[frame])),
        })
        .collect()
}

#[test]
fn the_transformer_looks_at_no_later_frame() {
    let frames = 5usize;
    let none = vec![vec![false; frames]; frames];
    let input: Origins = (0..frames).map(|j| (0..frames).map(|i| i == j).collect()).collect();
    let mut memory: Vec<(Operand, Origins)> = vec![(Operand::Input(0), input.clone())];
    let value = |memory: &Vec<(Operand, Origins)>, o: Operand| match o {
        Operand::Weight(_) => none.clone(),
        _ => match memory.iter().rev().find(|(held, _)| *held == o) {
            Some((_, value)) => value.clone(),
            None => panic!("read before it was written"),
        },
    };
    for op in &transformer_plan(frames, 8).ops {
        if let Op::Run { call, inputs, output } = op {
            let args: Vec<Origins> =
                inputs.to_vec().iter().map(|o| value(&memory, *o)).collect();
            memory.push((*output, origins(call, &args)));
        }
    }
    let output = value(&memory, Operand::Scratch(OUTPUT_CT));
    for (frame, from) in output.iter().enumerate() {
        let expected: Vec<bool> = (0..frames).map(|i| i <= frame).collect();
        assert_eq!(*from, expected);
    }
    assert_eq!(value(&memory, Operand::Input(0)), input);
}

#[test]
fn the_feed_forward_block_is_planned() {
    let plan = match mlp_block_plan(2, 3, 5) {
        Some(plan) => plan,
        None => panic!("no plan"),
    };
    assert_eq!(trace(&plan), 6);
    assert_eq!(plan.ops[1], Op::Alloc { len: 10 });
    assert_eq!(
        plan.ops.last(),
        Some(&Op::Run {
            call: Call::ResidualAdd { total: 6 },
            inputs: Inputs::Two(Operand::Input(0), Operand::Scratch(4)),
            output: Operand::Scratch(5),
        })
    );
    assert!(mlp_block_plan(2, usize::MAX, 5).is_none());
    assert!(mlp_block_plan(2, 3, usize::MAX / 2 + 1).is_none());
}
