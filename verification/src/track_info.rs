//! The summary of a track that is shown to the listener: where it came
//! from, the processor registers at capture, and what its tag says.
use vstd::prelude::*;
use crate::snapshot::{emulator_name, Id666Tag, TrackSnapshot};
use crate::text::{
    append_decimal,
    append_line,
    append_signed_decimal,
    decimal,
    join_lines,
    lemma_join_push,
    signed_decimal,
};

verus! {

/// The lines that name the file and list the registers.
pub open spec fn register_lines(path: Seq<char>, spc: TrackSnapshot) -> Seq<Seq<char>> {
    seq![
        "SPC: "@ + path,
        " Version Minor: "@ + decimal(spc.version_minor as nat),
        " PC: "@ + decimal(spc.pc as nat),
        " A: "@ + decimal(spc.a as nat),
        " X: "@ + decimal(spc.x as nat),
        " Y: "@ + decimal(spc.y as nat),
        " PSW: "@ + decimal(spc.psw as nat),
        " SP: "@ + decimal(spc.sp as nat),
    ]
}

/// The lines that say what the tag holds, or that there is none.
pub open spec fn tag_lines(tag: Option<Id666Tag>) -> Seq<Seq<char>> {
    match tag {
        Some(tag) => seq![
            " ID666 tag present:"@,
            "  Song title: "@ + tag.song_title@,
            "  Game title: "@ + tag.game_title@,
            "  Dumper name: "@ + tag.dumper_name@,
            "  Comments: "@ + tag.comments@,
            "  Date dumped (MM/DD/YYYY): "@ + tag.date_dumped@,
            "  Seconds to play before fading out: "@ + signed_decimal(
                tag.seconds_to_play_before_fading_out as int,
            ),
            "  Fade out length: "@ + signed_decimal(tag.fade_out_length as int) + "ms"@,
            "  Artist name: "@ + tag.artist_name@,
            "  Default channel disables: "@ + decimal(tag.default_channel_disables as nat),
            "  Dumping emulator: "@ + emulator_name(tag.dumping_emulator),
        ],
        None => seq![" No ID666 tag present."@],
    }
}

/// The lines of the summary of the track loaded from `path`.
pub open spec fn info_lines(path: Seq<char>, spc: TrackSnapshot) -> Seq<Seq<char>> {
    register_lines(path, spc) + tag_lines(spc.id666_tag)
}

/// The summary of the track loaded from `path`: its lines, each ended by a
/// line feed.
pub open spec fn info_text(path: Seq<char>, spc: TrackSnapshot) -> Seq<char> {
    join_lines(info_lines(path, spc))
}

fn text_line(buf: &mut String, Ghost(lines): Ghost<Seq<Seq<char>>>, label: &str, value: &str)
    requires
        old(buf)@ == join_lines(lines),
    ensures
        final(buf)@ == join_lines(lines.push(label@ + value@)),
{
    buf.append(label);
    append_line(buf, value);
    proof {
        lemma_join_push(lines, label@ + value@);
        assert(buf@ =~= join_lines(lines) + (label@ + value@) + seq!['\n']);
    }
}

fn number_line(buf: &mut String, Ghost(lines): Ghost<Seq<Seq<char>>>, label: &str, value: u64)
    requires
        old(buf)@ == join_lines(lines),
    ensures
        final(buf)@ == join_lines(lines.push(label@ + decimal(value as nat))),
{
    buf.append(label);
    append_decimal(buf, value);
    append_line(buf, "");
    proof {
        reveal_strlit("");
        lemma_join_push(lines, label@ + decimal(value as nat));
        assert(buf@ =~= join_lines(lines) + (label@ + decimal(value as nat)) + seq!['\n']);
    }
}

fn signed_line(
    buf: &mut String,
    Ghost(lines): Ghost<Seq<Seq<char>>>,
    label: &str,
    value: i32,
    unit: &str,
)
    requires
        old(buf)@ == join_lines(lines),
    ensures
        final(buf)@ == join_lines(lines.push(label@ + signed_decimal(value as int) + unit@)),
{
    buf.append(label);
    append_signed_decimal(buf, value);
    append_line(buf, unit);
    proof {
        lemma_join_push(lines, label@ + signed_decimal(value as int) + unit@);
        assert(buf@ =~= join_lines(lines) + (label@ + signed_decimal(value as int) + unit@)
            + seq!['\n']);
    }
}

/// Writes the summary of the track loaded from `path`.
pub fn get_spc_info(path: &str, spc: &TrackSnapshot) -> (info: String)
    ensures
        info@ == info_text(path@, *spc),
{
    let mut buf = String::new();
    let ghost mut lines: Seq<Seq<char>> = Seq::empty();
    text_line(&mut buf, Ghost(lines), "SPC: ", path);
    proof {
        lines = lines.push("SPC: "@ + path@);
    }
    number_line(&mut buf, Ghost(lines), " Version Minor: ", spc.version_minor as u64);
    proof {
        lines = lines.push(" Version Minor: "@ + decimal(spc.version_minor as nat));
    }
    number_line(&mut buf, Ghost(lines), " PC: ", spc.pc as u64);
    proof {
        lines = lines.push(" PC: "@ + decimal(spc.pc as nat));
    }
    number_line(&mut buf, Ghost(lines), " A: ", spc.a as u64);
    proof {
        lines = lines.push(" A: "@ + decimal(spc.a as nat));
    }
    number_line(&mut buf, Ghost(lines), " X: ", spc.x as u64);
    proof {
        lines = lines.push(" X: "@ + decimal(spc.x as nat));
    }
    number_line(&mut buf, Ghost(lines), " Y: ", spc.y as u64);
    proof {
        lines = lines.push(" Y: "@ + decimal(spc.y as nat));
    }
    number_line(&mut buf, Ghost(lines), " PSW: ", spc.psw as u64);
    proof {
        lines = lines.push(" PSW: "@ + decimal(spc.psw as nat));
    }
    number_line(&mut buf, Ghost(lines), " SP: ", spc.sp as u64);
    proof {
        lines = lines.push(" SP: "@ + decimal(spc.sp as nat));
        assert(lines =~= register_lines(path@, *spc));
    }
    match &spc.id666_tag {
        Some(tag) => {
            tag_info(&mut buf, Ghost(lines), tag);
        },
        None => {
            proof {
                reveal_strlit("");
                assert(" No ID666 tag present."@ + ""@ =~= " No ID666 tag present."@);
                assert(lines.push(" No ID666 tag present."@) =~= info_lines(path@, *spc));
            }
            text_line(&mut buf, Ghost(lines), " No ID666 tag present.", "");
        },
    }
    buf
}

fn tag_info(buf: &mut String, Ghost(before): Ghost<Seq<Seq<char>>>, tag: &Id666Tag)
    requires
        old(buf)@ == join_lines(before),
    ensures
        final(buf)@ == join_lines(before + tag_lines(Some(*tag))),
{
    let ghost mut lines = before;
    proof {
        reveal_strlit("");
        assert(" ID666 tag present:"@ + ""@ =~= " ID666 tag present:"@);
    }
    text_line(buf, Ghost(lines), " ID666 tag present:", "");
    proof {
        lines = lines.push(" ID666 tag present:"@);
    }
    text_line(buf, Ghost(lines), "  Song title: ", tag.song_title.as_str());
    proof {
        lines = lines.push("  Song title: "@ + tag.song_title@);
    }
    text_line(buf, Ghost(lines), "  Game title: ", tag.game_title.as_str());
    proof {
        lines = lines.push("  Game title: "@ + tag.game_title@);
    }
    text_line(buf, Ghost(lines), "  Dumper name: ", tag.dumper_name.as_str());
    proof {
        lines = lines.push("  Dumper name: "@ + tag.dumper_name@);
    }
    text_line(buf, Ghost(lines), "  Comments: ", tag.comments.as_str());
    proof {
        lines = lines.push("  Comments: "@ + tag.comments@);
    }
    text_line(buf, Ghost(lines), "  Date dumped (MM/DD/YYYY): ", tag.date_dumped.as_str());
    proof {
        lines = lines.push("  Date dumped (MM/DD/YYYY): "@ + tag.date_dumped@);
    }
    signed_line(
        buf,
        Ghost(lines),
        "  Seconds to play before fading out: ",
        tag.seconds_to_play_before_fading_out,
        "",
    );
    proof {
        assert("  Seconds to play before fading out: "@ + signed_decimal(
            tag.seconds_to_play_before_fading_out as int,
        ) + ""@ =~= "  Seconds to play before fading out: "@ + signed_decimal(
            tag.seconds_to_play_before_fading_out as int,
        ));
        lines = lines.push(
            "  Seconds to play before fading out: "@ + signed_decimal(
                tag.seconds_to_play_before_fading_out as int,
            ),
        );
    }
    signed_line(buf, Ghost(lines), "  Fade out length: ", tag.fade_out_length, "ms");
    proof {
        lines = lines.push(
            "  Fade out length: "@ + signed_decimal(tag.fade_out_length as int) + "ms"@,
        );
    }
    text_line(buf, Ghost(lines), "  Artist name: ", tag.artist_name.as_str());
    proof {
        lines = lines.push("  Artist name: "@ + tag.artist_name@);
    }
    number_line(
        buf,
        Ghost(lines),
        "  Default channel disables: ",
        tag.default_channel_disables as u64,
    );
    proof {
        lines = lines.push(
            "  Default channel disables: "@ + decimal(tag.default_channel_disables as nat),
        );
    }
    text_line(buf, Ghost(lines), "  Dumping emulator: ", tag.dumping_emulator.name());
    proof {
        lines = lines.push("  Dumping emulator: "@ + emulator_name(tag.dumping_emulator));
        assert(lines =~= before + tag_lines(Some(*tag)));
    }
}

} // verus!
