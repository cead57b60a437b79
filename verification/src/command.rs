//! Commands for the server, built with the `redis` crate.
//!
//! A command is its arguments, byte strings, the first of which is its name. A
//! pipeline is its commands, each with a mark that says whether its result is
//! thrown away.

use vstd::prelude::*;
use vstd::utf8::encode_utf8;

verus! {

/// A command of the `redis` crate.
#[verifier::external_type_specification]
#[verifier::external_body]
pub struct ExCmd(redis::Cmd);

/// A pipeline of the `redis` crate.
#[verifier::external_type_specification]
#[verifier::external_body]
pub struct ExPipeline(redis::Pipeline);

/// The arguments of a command, as `Cmd::args_iter` lists them.
pub uninterp spec fn command_args(command: redis::Cmd) -> Seq<Seq<u8>>;

/// The commands of a pipeline, as `Pipeline::cmd_iter` lists them: the
/// arguments of each, and whether its result is ignored.
pub uninterp spec fn pipeline_commands(pipeline: redis::Pipeline) -> Seq<(Seq<Seq<u8>>, bool)>;

/// Calls `redis::cmd`: a command whose only argument is its name.
#[verifier::external_body]
pub(crate) fn new_command(name: &str) -> (command: redis::Cmd)
    ensures
        command_args(command) == seq![encode_utf8(name@)],
{
    redis::cmd(name)
}

/// Calls `Cmd::arg` with a byte string, which becomes one more argument, as it
/// is.
#[verifier::external_body]
pub(crate) fn push_bytes(command: &mut redis::Cmd, arg: &[u8])
    ensures
        command_args(*final(command)) == command_args(*old(command)).push(arg@),
{
    command.arg(arg);
}

/// Calls `redis::pipe`: a pipeline without commands.
#[verifier::external_body]
pub(crate) fn new_pipeline() -> (pipeline: redis::Pipeline)
    ensures
        pipeline_commands(pipeline) == Seq::<(Seq<Seq<u8>>, bool)>::empty(),
{
    redis::pipe()
}

/// Calls `Pipeline::cmd`: one more command, whose only argument is its name
/// and whose result is not ignored.
#[verifier::external_body]
pub(crate) fn start_command(pipeline: &mut redis::Pipeline, name: &str)
    ensures
        pipeline_commands(*final(pipeline)) == pipeline_commands(*old(pipeline)).push(
            (seq![encode_utf8(name@)], false),
        ),
{
    pipeline.cmd(name);
}

/// The commands of a pipeline after one more argument for the last one.
pub open spec fn with_last_arg(commands: Seq<(Seq<Seq<u8>>, bool)>, arg: Seq<u8>) -> Seq<
    (Seq<Seq<u8>>, bool),
> {
    commands.drop_last().push((commands.last().0.push(arg), commands.last().1))
}

/// Calls `Pipeline::arg` with a byte string, which becomes one more argument
/// of the last command, as it is. Without a command that call panics.
#[verifier::external_body]
pub(crate) fn push_last_bytes(pipeline: &mut redis::Pipeline, arg: &[u8])
    requires
        pipeline_commands(*old(pipeline)).len() > 0,
    ensures
        pipeline_commands(*final(pipeline)) == with_last_arg(
            pipeline_commands(*old(pipeline)),
            arg@,
        ),
{
    pipeline.arg(arg);
}

/// Calls `Pipeline::ignore`, which marks the result of the last command as
/// ignored and leaves a pipeline without commands as it is.
#[verifier::external_body]
pub(crate) fn ignore_last(pipeline: &mut redis::Pipeline)
    ensures
        pipeline_commands(*final(pipeline)) == if pipeline_commands(*old(pipeline)).len() == 0 {
            pipeline_commands(*old(pipeline))
        } else {
            pipeline_commands(*old(pipeline)).drop_last().push(
                (pipeline_commands(*old(pipeline)).last().0, true),
            )
        },
{
    pipeline.ignore();
}

/// The UTF-8 bytes of several texts.
pub open spec fn encoded(texts: Seq<Seq<char>>) -> Seq<Seq<u8>> {
    texts.map_values(|text: Seq<char>| encode_utf8(text))
}

/// Adds a text to a command as one more argument.
pub(crate) fn push_text(command: &mut redis::Cmd, text: &str)
    ensures
        command_args(*final(command)) == command_args(*old(command)).push(encode_utf8(text@)),
{
    push_bytes(command, text.as_bytes());
}

/// Adds a text to the last command of a pipeline as one more argument.
pub(crate) fn push_last_text(pipeline: &mut redis::Pipeline, text: &str)
    requires
        pipeline_commands(*old(pipeline)).len() > 0,
    ensures
        pipeline_commands(*final(pipeline)) == with_last_arg(
            pipeline_commands(*old(pipeline)),
            encode_utf8(text@),
        ),
{
    push_last_bytes(pipeline, text.as_bytes());
}

/// Adds several texts to a command, each as one more argument.
pub(crate) fn push_texts(command: &mut redis::Cmd, words: &[&str])
    ensures
        command_args(*final(command)) == command_args(*old(command)) + encoded(
            words@.map_values(|word: &str| word@),
        ),
{
    let ghost all = words@.map_values(|word: &str| word@);
    let ghost before = command_args(*command);
    for i in 0..words.len()
        invariant
            all == words@.map_values(|word: &str| word@),
            command_args(*command) =~= before + encoded(all.take(i as int)),
    {
        push_text(command, words[i]);
        assert(encoded(all.take(i + 1)) =~= encoded(all.take(i as int)).push(
            encode_utf8(words@[i as int]@),
        ));
    }
    assert(all.take(all.len() as int) =~= all);
}

} // verus!
