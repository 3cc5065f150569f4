use crate::bits::{le_bits, pad8};
use crate::buffer::BitBuffer;
use crate::cursor::{aligned, take_bool, take_u8, BitCursor, Taken};
use crate::error::CodecError;
use crate::field::{reads_valid, BinaryField};
use crate::phi_base::PhiString;
use crate::wire::{lemma_begins_padded, lemma_take_bool_written, lemma_take_u8_written};
use vstd::prelude::*;

verus! {

/// The user profile: a version, a byte of flags, and three strings.
#[derive(Debug, PartialEq, Eq)]
pub struct User {
    pub version: u8,
    pub show_player_id: bool,
    pub self_intro: PhiString,
    pub avatar: PhiString,
    pub background: PhiString,
}

/// The model of a user profile.
pub struct UserView {
    pub version: u8,
    pub show_player_id: bool,
    pub self_intro: Seq<char>,
    pub avatar: Seq<char>,
    pub background: Seq<char>,
}

impl View for User {
    type V = UserView;

    open spec fn view(&self) -> UserView {
        UserView {
            version: self.version,
            show_player_id: self.show_player_id,
            self_intro: self.self_intro@,
            avatar: self.avatar@,
            background: self.background@,
        }
    }
}

impl Default for User {
    fn default() -> (r: User)
        ensures
            r.version == 0,
            !r.show_player_id,
            r.self_intro@ == Seq::<char>::empty(),
            r.avatar@ == Seq::<char>::empty(),
            r.background@ == Seq::<char>::empty(),
    {
        User {
            version: 0,
            show_player_id: false,
            self_intro: PhiString(String::new()),
            avatar: PhiString(String::new()),
            background: PhiString(String::new()),
        }
    }
}

impl BinaryField for User {
    open spec fn spec_parse(bits: Seq<bool>, pos: nat) -> Taken<UserView> {
        match take_u8(bits, pos) {
            Err(e) => Err(e),
            Ok((version, n1)) => match take_bool(bits, n1) {
                Err(e) => Err(e),
                Ok((show_player_id, n2)) => match PhiString::spec_parse(bits, aligned(n2)) {
                    Err(e) => Err(e),
                    Ok((self_intro, n3)) => match PhiString::spec_parse(bits, n3) {
                        Err(e) => Err(e),
                        Ok((avatar, n4)) => match PhiString::spec_parse(bits, n4) {
                            Err(e) => Err(e),
                            Ok((background, n5)) => Ok(
                                (
                                    UserView {
                                        version,
                                        show_player_id,
                                        self_intro,
                                        avatar,
                                        background,
                                    },
                                    n5,
                                ),
                            ),
                        },
                    },
                },
            },
        }
    }

    open spec fn spec_build(v: UserView, pre: Seq<bool>) -> Seq<bool> {
        let b1 = pre + le_bits(v.version as nat, 8);
        let b2 = b1.push(v.show_player_id);
        let b3 = PhiString::spec_build(v.self_intro, pad8(b2));
        let b4 = PhiString::spec_build(v.avatar, b3);
        PhiString::spec_build(v.background, b4)
    }

    open spec fn representable(v: UserView) -> bool {
        &&& PhiString::representable(v.self_intro)
        &&& PhiString::representable(v.avatar)
        &&& PhiString::representable(v.background)
    }

    open spec fn valid(v: UserView) -> bool {
        Self::representable(v)
    }

    open spec fn normal(v: UserView) -> UserView {
        v
    }

    #[verifier::rlimit(50)]
    fn parse<'a>(cur: BitCursor<'a>) -> (r: Result<(User, BitCursor<'a>), CodecError>) {
        let (version, cur1) = match cur.read_u8() {
            Ok(x) => x,
            Err(e) => {
                return Err(e);
            },
        };
        let (show_player_id, cur2) = match cur1.read_bool() {
            Ok(x) => x,
            Err(e) => {
                return Err(e);
            },
        };
        let (self_intro, cur3) = match PhiString::parse(cur2.align()) {
            Ok(x) => x,
            Err(e) => {
                return Err(e);
            },
        };
        let (avatar, cur4) = match PhiString::parse(cur3) {
            Ok(x) => x,
            Err(e) => {
                return Err(e);
            },
        };
        let (background, cur5) = match PhiString::parse(cur4) {
            Ok(x) => x,
            Err(e) => {
                return Err(e);
            },
        };
        Ok((User { version, show_player_id, self_intro, avatar, background }, cur5))
    }

    #[verifier::rlimit(50)]
    fn build(&self, buf: &mut BitBuffer) -> (r: Result<(), CodecError>) {
        if !self.self_intro.fits() || !self.avatar.fits() || !self.background.fits() {
            return Err(CodecError::ValueOutOfRange);
        }
        buf.write_u8(self.version);
        buf.write_bool(self.show_player_id);
        buf.align();
        let _ = self.self_intro.build(buf);
        let _ = self.avatar.build(buf);
        let _ = self.background.build(buf);
        Ok(())
    }

    #[verifier::rlimit(50)]
    proof fn lemma_parse_build(v: UserView, pre: Seq<bool>, bits: Seq<bool>) {
        let b1 = pre + le_bits(v.version as nat, 8);
        let b2 = b1.push(v.show_player_id);
        let b3 = PhiString::spec_build(v.self_intro, pad8(b2));
        let b4 = PhiString::spec_build(v.avatar, b3);
        PhiString::lemma_parse_build(v.background, b4, bits);
        PhiString::lemma_parse_build(v.avatar, b3, bits);
        PhiString::lemma_parse_build(v.self_intro, pad8(b2), bits);
        lemma_begins_padded(bits, b2);
        lemma_take_bool_written(bits, b1, v.show_player_id);
        lemma_take_u8_written(bits, pre, v.version);
    }

    #[verifier::rlimit(50)]
    proof fn lemma_parsed_valid(bits: Seq<bool>, pos: nat) {
        assert forall|p: nat| #![trigger PhiString::spec_parse(bits, p)] reads_valid::<PhiString>(bits, p) by {
            PhiString::lemma_parsed_valid(bits, p);
        }
    }
}

} // verus!
