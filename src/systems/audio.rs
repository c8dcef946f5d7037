//! Audio decisions: the one-shot `PlayBgm` and `PlaySfx` triggers become a
//! list of cues for the audio collaborator, which opens and plays the files.

use vstd::prelude::*;

use crate::components::{Component, ComponentKind};
use crate::entity::{find_kind, lemma_find_from, Entity};
use crate::global::{Global, Signal, Signals};
use crate::systems::world_of;

verus! {

/// A sound to play: background music (repeated) or a sound effect, by path.
#[derive(Clone, Debug, PartialEq, Eq)]
pub enum AudioCue {
    Bgm(String),
    Sfx(String),
}

/// Consumes the audio triggers of the signal board.
#[derive(Clone, Copy, Debug, PartialEq, Eq, Structural)]
pub struct AudioSystem {}

/// The cues of one entity: from its first audio component, its sound effect
/// when effects are triggered, then its music when music is triggered.
pub open spec fn entity_cues(cs: Seq<Component>, bgm: bool, sfx: bool) -> Seq<AudioCue> {
    match find_kind(cs, ComponentKind::Audio) {
        Some(i) => match cs[i] {
            Component::Audio(a) => (if sfx && a.sfx is Some {
                seq![AudioCue::Sfx(a.sfx.unwrap())]
            } else {
                Seq::empty()
            }) + (if bgm && a.bgm is Some {
                seq![AudioCue::Bgm(a.bgm.unwrap())]
            } else {
                Seq::empty()
            }),
            _ => Seq::empty(),
        },
        None => Seq::empty(),
    }
}

/// The cues of the first `n` entities, in list order.
pub open spec fn world_cues(world: Seq<Seq<Component>>, bgm: bool, sfx: bool, n: nat) -> Seq<
    AudioCue,
>
    decreases n,
{
    if n == 0 {
        Seq::empty()
    } else {
        world_cues(world, bgm, sfx, (n - 1) as nat) + entity_cues(world[n - 1], bgm, sfx)
    }
}

impl AudioSystem {
    /// An audio system; the background music is asked for at once.
    pub fn new(global: &mut Global) -> (r: AudioSystem)
        ensures
            *final(global) == (Global {
                signals: old(global).signals.with(Signal::PlayBgm, true),
                ..*old(global)
            }),
    {
        global.signals.set(Signal::PlayBgm, true);
        AudioSystem {  }
    }

    /// Clears both triggers and lists, for every entity in order, the cues
    /// they asked for.
    pub fn take_cues(&mut self, entities: &Vec<Entity>, global: &mut Global) -> (r: Vec<AudioCue>)
        ensures
            *final(global) == (Global {
                signals: Signals { play_bgm: false, play_sfx: false, ..old(global).signals },
                ..*old(global)
            }),
            r@ == world_cues(
                world_of(entities@),
                old(global).signals.play_bgm,
                old(global).signals.play_sfx,
                entities@.len() as nat,
            ),
    {
        let play_bgm = global.signals.get(Signal::PlayBgm);
        let play_sfx = global.signals.get(Signal::PlaySfx);
        global.signals.set(Signal::PlayBgm, false);
        global.signals.set(Signal::PlaySfx, false);

        let ghost world = world_of(entities@);
        let mut cues: Vec<AudioCue> = Vec::new();
        let mut i: usize = 0;
        while i < entities.len()
            invariant
                world == world_of(entities@),
                i <= entities@.len(),
                cues@ == world_cues(world, play_bgm, play_sfx, i as nat),
            decreases entities@.len() - i,
        {
            let entity = &entities[i];
            assert(world[i as int] == entity.components@);
            proof {
                lemma_find_from(entity.components@, ComponentKind::Audio, 0);
            }
            let ghost before = cues@;
            if let Some(k) = entity.find(ComponentKind::Audio) {
                if let Component::Audio(audio) = &entity.components[k] {
                    if play_sfx {
                        if let Some(path) = &audio.sfx {
                            cues.push(AudioCue::Sfx(path.clone()));
                        }
                    }
                    if play_bgm {
                        if let Some(path) = &audio.bgm {
                            cues.push(AudioCue::Bgm(path.clone()));
                        }
                    }
                }
            }
            assert(cues@ =~= before + entity_cues(world[i as int], play_bgm, play_sfx));
            i = i + 1;
        }
        cues
    }
}

} // verus!
