use vstd::prelude::*;

verus! {

/// What a hex produces, or what a port accepts.
#[derive(Copy, Clone, Debug, PartialEq, Eq, Structural)]
pub enum ResourceType {
    Nothing,
    Wood,
    Stone,
    Brick,
    Sheep,
    Wheat,
    Anything,
}

/// The resource numbered `i` in the order Wood, Stone, Brick, Sheep, Wheat
/// (1 to 5); every other number has no resource.
pub open spec fn resource_of_int(i: int) -> ResourceType {
    if i == 1 {
        ResourceType::Wood
    } else if i == 2 {
        ResourceType::Stone
    } else if i == 3 {
        ResourceType::Brick
    } else if i == 4 {
        ResourceType::Sheep
    } else if i == 5 {
        ResourceType::Wheat
    } else {
        ResourceType::Nothing
    }
}

pub fn IntToResourceType(integer: i8) -> (r: ResourceType)
    ensures
        r == resource_of_int(integer as int),
{
    match integer {
        1 => ResourceType::Wood,
        2 => ResourceType::Stone,
        3 => ResourceType::Brick,
        4 => ResourceType::Sheep,
        5 => ResourceType::Wheat,
        _ => ResourceType::Nothing,
    }
}

#[derive(Copy, Clone, Debug, PartialEq, Eq, Structural)]
pub enum SettlementTier {
    Basic,
    City,
}

/// A trade port: `num_inputs` of `input` buy one resource of choice.
#[derive(Copy, Clone, Debug, PartialEq, Eq, Structural)]
pub struct PortData {
    pub input: ResourceType,
    pub num_inputs: i8,
}

#[derive(Copy, Clone, Debug, PartialEq, Eq, Structural)]
pub struct RoadData {
    pub player_id: i8,
}

/// What a tile holds: its resource, the dice total that triggers it, and
/// whether the robber stands on it.
#[derive(Copy, Clone, Debug, PartialEq, Eq, Structural)]
pub struct HexData {
    pub resource: ResourceType,
    pub dice_num: i8,
    pub has_robber: bool,
}

#[derive(Copy, Clone, Debug, PartialEq, Eq, Structural)]
pub struct SettlementData {
    pub player_id: i8,
    pub tier: SettlementTier,
}

} // verus!
